# lib: a verified fixed-capacity linear map

A map that keeps its `(key, value)` entries in a vector of bounded capacity and
finds keys by linear search, verified with Verus.

- `src/entries.rs`: the model. A map is the sequence of its entries; a lookup
  takes the first entry whose key compares equal. Spec functions for lookup,
  insertion and removal on that sequence, and the lemmas about them.
- `src/linear_map.rs`: `LinearMapInner<K, V, N>` (alias `LinearMap`), a map
  that never holds more than `N` entries: its capacity is part of its type.
- `src/iter.rs`: `Iter`, `IterMut`, `ValuesMut` and `IntoIter`, each with a `next` method.
- `src/laws.rs`: properties across operations (what a lookup finds after an
  insertion or a removal, that removal undoes a fresh insertion, that equality
  ignores entry order and is an equivalence on maps with distinct keys).
- `tests/`: usage scenarios and one test per law.
