# filesystem

A file system kept as chain storage, with its behaviour proved by Verus.

- `src/inode.rs`: the inode, its permission bits and the write check.
- `src/names.rs`: the byte order of names and a verified comparison.
- `src/listing.rs`: sorted directory listings and a verified binary search.
- `src/model.rs`: the storage as mathematical values, each request as a
  function on them, and the consistency that every request keeps.
- `src/pallet.rs`: the storage itself, consistent by a type invariant, and
  the four requests (create and delete a directory, create and delete a
  file), each proved to do what `model.rs` says.
- `src/laws.rs`: what holds across requests: consistency is kept, a
  creation undone by a deletion, refused requests change nothing, freed
  inodes come back first, the limits on inodes and on the total size hold,
  and the total size is the start size plus the sizes of the stored files.
- `app/`: the runtime around it: signed origins, time and block, events,
  and a serialisable copy of the inode.
