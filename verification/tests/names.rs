use filesystem::listing::search_listing;
use filesystem::names::{compare_names, NameOrder};

fn listing(names: &[&str]) -> Vec<(Vec<u8>, u32)> {
    names.iter().enumerate().map(|(i, n)| (n.as_bytes().to_vec(), i as u32 + 10)).collect()
}

#[test]
fn names_compare_byte_by_byte() {
    assert_eq!(compare_names(&b"ab".to_vec(), &b"b".to_vec()), NameOrder::Before);
    assert_eq!(compare_names(&b"b".to_vec(), &b"ab".to_vec()), NameOrder::After);
    assert_eq!(compare_names(&b"abc".to_vec(), &b"abc".to_vec()), NameOrder::Same);
    assert_eq!(compare_names(&b"ab".to_vec(), &b"abc".to_vec()), NameOrder::Before);
    assert_eq!(compare_names(&b"abc".to_vec(), &b"ab".to_vec()), NameOrder::After);
    assert_eq!(compare_names(&Vec::new(), &Vec::new()), NameOrder::Same);
    assert_eq!(compare_names(&Vec::new(), &b"a".to_vec()), NameOrder::Before);
    assert_eq!(compare_names(&b"Z".to_vec(), &b"a".to_vec()), NameOrder::Before);
}

#[test]
fn names_order_as_vectors_do() {
    let words: Vec<Vec<u8>> = ["", "a", "aa", "ab", "b", "ba", "z", "\u{ff}", "a\u{0}"]
        .iter()
        .map(|w| w.as_bytes().to_vec())
        .collect();
    for x in &words {
        for y in &words {
            let expected = if x < y {
                NameOrder::Before
            } else if x == y {
                NameOrder::Same
            } else {
                NameOrder::After
            };
            assert_eq!(compare_names(x, y), expected);
        }
    }
}

#[test]
fn search_finds_present_names() {
    let l = listing(&["a", "c", "e", "g"]);
    assert_eq!(search_listing(&l, &b"a".to_vec()), Ok(0));
    assert_eq!(search_listing(&l, &b"e".to_vec()), Ok(2));
    assert_eq!(search_listing(&l, &b"g".to_vec()), Ok(3));
}

#[test]
fn search_gives_insertion_index_of_absent_names() {
    let l = listing(&["a", "c", "e", "g"]);
    assert_eq!(search_listing(&l, &b"".to_vec()), Err(0));
    assert_eq!(search_listing(&l, &b"b".to_vec()), Err(1));
    assert_eq!(search_listing(&l, &b"f".to_vec()), Err(3));
    assert_eq!(search_listing(&l, &b"h".to_vec()), Err(4));
    assert_eq!(search_listing(&Vec::new(), &b"x".to_vec()), Err(0));
}

#[test]
fn search_agrees_with_std_binary_search() {
    let l = listing(&["", "a", "ab", "b", "bb", "c"]);
    for probe in ["", "a", "aa", "ab", "abc", "b", "ba", "bb", "c", "d"] {
        let name = probe.as_bytes().to_vec();
        let expected = l.binary_search_by(|e| e.0.cmp(&name));
        assert_eq!(search_listing(&l, &name), expected);
    }
}
