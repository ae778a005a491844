# clusterkit

The verified core of a Ruby toolkit for clustering, dimensionality
reduction and approximate nearest-neighbour search.

- `src/` is the library, verified with Verus. It holds the bookkeeping of
  the nearest-neighbour index (labels, ids, metadata, search width, saving
  and loading), the shape checks of matrices read from Ruby, the parameters
  handed to HDBSCAN and to the randomized SVD, and the messages of every
  refusal. Its laws are in `src/index_laws.rs`, `src/shape.rs` and
  `src/clustering.rs`.
- `app/` is the Ruby extension: it reads Ruby values, runs the numeric work
  of `hnsw_rs`, `hdbscan` and `annembed` on floating-point data, and hands
  plain values to the library and back.
- `tests/` exercises the library.
