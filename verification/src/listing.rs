use vstd::prelude::*;

use crate::names::{compare_names, lemma_lex_asymmetric, lemma_lex_total, lemma_lex_transitive, lex_lt, NameOrder};

verus! {

/// A directory listing as its bytes: each entry is a name and the inode it
/// names.
pub open spec fn listing_view(v: Seq<(Vec<u8>, u32)>) -> Seq<(Seq<u8>, u32)> {
    v.map_values(|e: (Vec<u8>, u32)| (e.0@, e.1))
}

/// The entries of a listing stand in strictly increasing order of their
/// names (so no name occurs twice).
pub open spec fn sorted_by_name(l: Seq<(Seq<u8>, u32)>) -> bool {
    forall|i: int, j: int| 0 <= i < j < l.len() ==> lex_lt(#[trigger] l[i].0, #[trigger] l[j].0)
}

/// The index of the first entry that carries `name`, if any.
pub open spec fn position_of_name(l: Seq<(Seq<u8>, u32)>, name: Seq<u8>) -> Option<int>
    decreases l.len(),
{
    if l.len() == 0 {
        None
    } else if l[0].0 == name {
        Some(0)
    } else {
        match position_of_name(l.drop_first(), name) {
            Some(i) => Some(i + 1),
            None => None,
        }
    }
}

/// How many entries carry a name that sorts before `name`: the index at which
/// an entry for `name` is inserted.
pub open spec fn count_before(l: Seq<(Seq<u8>, u32)>, name: Seq<u8>) -> nat
    decreases l.len(),
{
    if l.len() == 0 {
        0
    } else {
        count_before(l.drop_last(), name) + if lex_lt(l.last().0, name) {
            1nat
        } else {
            0nat
        }
    }
}

/// What `position_of_name` gives: the first entry with the name, or none if
/// no entry has it.
pub proof fn lemma_position_of_name(l: Seq<(Seq<u8>, u32)>, name: Seq<u8>)
    ensures
        match position_of_name(l, name) {
            Some(i) => {
                &&& 0 <= i < l.len()
                &&& l[i].0 == name
                &&& forall|j: int| 0 <= j < i ==> l[j].0 != name
            },
            None => forall|j: int| 0 <= j < l.len() ==> l[j].0 != name,
        },
    decreases l.len(),
{
    if l.len() > 0 && l[0].0 != name {
        lemma_position_of_name(l.drop_first(), name);
        match position_of_name(l.drop_first(), name) {
            Some(i) => {
                assert forall|j: int| 0 <= j < i + 1 implies l[j].0 != name by {
                    if j > 0 {
                        assert(l[j] == l.drop_first()[j - 1]);
                    }
                }
            },
            None => {
                assert forall|j: int| 0 <= j < l.len() implies l[j].0 != name by {
                    if j > 0 {
                        assert(l[j] == l.drop_first()[j - 1]);
                    }
                }
            },
        }
    }
}

/// In a sorted listing, an entry carrying `name` is the only one that does.
pub proof fn lemma_sorted_name_unique(l: Seq<(Seq<u8>, u32)>, name: Seq<u8>, i: int)
    requires
        sorted_by_name(l),
        0 <= i < l.len(),
        l[i].0 == name,
    ensures
        position_of_name(l, name) == Some(i),
{
    lemma_position_of_name(l, name);
    match position_of_name(l, name) {
        Some(k) => {
            if k < i {
                assert(lex_lt(l[k].0, l[i].0));
                lemma_lex_asymmetric(name, name);
            }
            assert(k <= i);
        },
        None => {},
    }
}

/// When the entries before `i` sort before `name` and the others do not,
/// `i` is the insertion index of `name`.
pub proof fn lemma_count_before(l: Seq<(Seq<u8>, u32)>, name: Seq<u8>, i: int)
    requires
        0 <= i <= l.len(),
        forall|j: int| 0 <= j < i ==> lex_lt(#[trigger] l[j].0, name),
        forall|j: int| i <= j < l.len() ==> !lex_lt(#[trigger] l[j].0, name),
    ensures
        count_before(l, name) == i,
    decreases l.len(),
{
    if l.len() > 0 {
        let d = l.drop_last();
        if i == l.len() {
            assert(lex_lt(l[l.len() - 1].0, name));
            assert forall|j: int| 0 <= j < i - 1 implies lex_lt(#[trigger] d[j].0, name) by {
                assert(d[j] == l[j]);
            }
            lemma_count_before(d, name, i - 1);
        } else {
            assert(!lex_lt(l[l.len() - 1].0, name));
            assert forall|j: int| 0 <= j < i implies lex_lt(#[trigger] d[j].0, name) by {
                assert(d[j] == l[j]);
            }
            assert forall|j: int| i <= j < d.len() implies !lex_lt(#[trigger] d[j].0, name) by {
                assert(d[j] == l[j]);
            }
            lemma_count_before(d, name, i);
        }
    }
}

/// In a sorted listing the entries whose names sort before `name` are the
/// first `count_before` ones.
pub proof fn lemma_sorted_partition(l: Seq<(Seq<u8>, u32)>, name: Seq<u8>)
    requires
        sorted_by_name(l),
    ensures
        count_before(l, name) <= l.len(),
        forall|j: int| 0 <= j < count_before(l, name) ==> lex_lt(#[trigger] l[j].0, name),
        forall|j: int| count_before(l, name) <= j < l.len() ==> !lex_lt(#[trigger] l[j].0, name),
    decreases l.len(),
{
    if l.len() > 0 {
        let d = l.drop_last();
        assert(sorted_by_name(d)) by {
            assert forall|i: int, j: int| 0 <= i < j < d.len() implies lex_lt(#[trigger] d[i].0, #[trigger] d[j].0) by {
                assert(d[i] == l[i] && d[j] == l[j]);
            }
        }
        lemma_sorted_partition(d, name);
        let last = l.len() - 1;
        if lex_lt(l[last].0, name) {
            assert forall|j: int| 0 <= j < l.len() implies lex_lt(#[trigger] l[j].0, name) by {
                if j < last {
                    lemma_lex_transitive(l[j].0, l[last].0, name);
                }
            }
            if count_before(d, name) < d.len() {
                let j = count_before(d, name) as int;
                assert(d[j] == l[j]);
                assert(lex_lt(l[j].0, name));
            }
        } else {
            assert forall|j: int| 0 <= j < count_before(l, name) implies lex_lt(#[trigger] l[j].0, name) by {
                assert(d[j] == l[j]);
            }
            assert forall|j: int| count_before(l, name) <= j < l.len() implies !lex_lt(#[trigger] l[j].0, name) by {
                if j < last {
                    assert(d[j] == l[j]);
                }
            }
        }
    }
}

/// Adding an entry for a name that a sorted listing lacks, at the index
/// where the name sorts, keeps the listing sorted.
pub proof fn lemma_sorted_insert(l: Seq<(Seq<u8>, u32)>, name: Seq<u8>, n: u32)
    requires
        sorted_by_name(l),
        position_of_name(l, name) is None,
    ensures
        sorted_by_name(l.insert(count_before(l, name) as int, (name, n))),
{
    lemma_sorted_partition(l, name);
    lemma_position_of_name(l, name);
    let c = count_before(l, name) as int;
    let m = l.insert(c, (name, n));
    assert forall|j: int| c <= j < l.len() implies lex_lt(name, #[trigger] l[j].0) by {
        lemma_lex_total(l[j].0, name);
    }
    assert forall|i: int, j: int| 0 <= i < j < m.len() implies lex_lt(#[trigger] m[i].0, #[trigger] m[j].0) by {
        if j < c {
            assert(m[i] == l[i] && m[j] == l[j]);
        } else if j == c {
            assert(m[i] == l[i]);
        } else if i < c {
            assert(m[i] == l[i] && m[j] == l[j - 1]);
            lemma_lex_transitive(l[i].0, name, l[j - 1].0);
        } else if i == c {
            assert(m[j] == l[j - 1]);
        } else {
            assert(m[i] == l[i - 1] && m[j] == l[j - 1]);
        }
    }
}

/// Removing an entry keeps a listing sorted.
pub proof fn lemma_sorted_remove(l: Seq<(Seq<u8>, u32)>, i: int)
    requires
        sorted_by_name(l),
        0 <= i < l.len(),
    ensures
        sorted_by_name(l.remove(i)),
{
    let m = l.remove(i);
    assert forall|a: int, b: int| 0 <= a < b < m.len() implies lex_lt(#[trigger] m[a].0, #[trigger] m[b].0) by {
        let a2 = if a < i { a } else { a + 1 };
        let b2 = if b < i { b } else { b + 1 };
        assert(m[a] == l[a2] && m[b] == l[b2]);
    }
}

/// Looks `name` up in a sorted listing by halving: `Ok` with the index of
/// the entry that carries it, or `Err` with the index at which an entry for
/// it belongs.
pub fn search_listing(entries: &Vec<(Vec<u8>, u32)>, name: &Vec<u8>) -> (r: Result<usize, usize>)
    requires
        sorted_by_name(listing_view(entries@)),
    ensures
        match r {
            Ok(i) => position_of_name(listing_view(entries@), name@) == Some(i as int),
            Err(i) => {
                &&& position_of_name(listing_view(entries@), name@) is None
                &&& i == count_before(listing_view(entries@), name@)
            },
        },
{
    let ghost l = listing_view(entries@);
    let mut lo: usize = 0;
    let mut hi: usize = entries.len();
    while lo < hi
        invariant
            l == listing_view(entries@),
            sorted_by_name(l),
            l.len() == entries.len(),
            lo <= hi <= entries.len(),
            forall|j: int| 0 <= j < lo ==> lex_lt(#[trigger] l[j].0, name@),
            forall|j: int| hi <= j < l.len() ==> lex_lt(name@, #[trigger] l[j].0),
        decreases hi - lo,
    {
        let mid = lo + (hi - lo) / 2;
        let o = compare_names(&entries[mid].0, name);
        assert(l[mid as int].0 == entries@[mid as int].0@);
        match o {
            NameOrder::Before => {
                assert forall|j: int| 0 <= j < mid + 1 implies lex_lt(#[trigger] l[j].0, name@) by {
                    if j < mid {
                        lemma_lex_transitive(l[j].0, l[mid as int].0, name@);
                    }
                }
                lo = mid + 1;
            },
            NameOrder::Same => {
                proof {
                    lemma_sorted_name_unique(l, name@, mid as int);
                }
                return Ok(mid);
            },
            NameOrder::After => {
                assert forall|j: int| mid <= j < l.len() implies lex_lt(name@, #[trigger] l[j].0) by {
                    if j > mid {
                        lemma_lex_transitive(name@, l[mid as int].0, l[j].0);
                    }
                }
                hi = mid;
            },
        }
    }
    proof {
        assert forall|j: int| 0 <= j < l.len() implies l[j].0 != name@ by {
            lemma_lex_asymmetric(name@, name@);
        }
        lemma_position_of_name(l, name@);
        assert forall|j: int| lo <= j < l.len() implies !lex_lt(#[trigger] l[j].0, name@) by {
            lemma_lex_asymmetric(name@, l[j].0);
        }
        lemma_count_before(l, name@, lo as int);
    }
    Err(lo)
}

} // verus!
