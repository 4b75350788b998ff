# header_vec splice

A verified splicing iterator over a `Vec`. `Splice::new(&mut v, start, end, r)`
turns `v` into `v[..start] ++ r ++ v[end..]` and returns a `Splice` that hands
out the removed elements `v[start..end]` from the front (`next`) or the back
(`next_back`); `drained_slice`, `size_hint` and `len` report what is left.

- `src/splice.rs`: the `Splice` type, its contracts, and the laws of splicing
  (`lemma_*` proof functions over `spliced_seq`).
- `tests/`: the splice scenarios and tests of each law on concrete values.

Verus checks the contracts and laws; `cargo test` runs the tests.
