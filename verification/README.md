# netflow_core

Decoders for captured flow-export datagrams (NetFlow v5, NetFlow v9, IPFIX and
sFlow v5) with the template cache that v9 and IPFIX need, as a library that is
verified with Verus, and a VGI worker around it that serves it to DuckDB.

- `src/` is the library. Every function states what it returns; every decoder is
  proved to do so for every byte string, without panicking.
  - `decode/` turns datagrams into rows; `cache.rs` holds the learned templates
    and the data that waits for one; `registry/` names Information Elements.
  - `columns.rs` is the boundary to Arrow: the only place that calls it.
    `arrow_map.rs`, `templates.rs`, `scalar/` and `flows/` build and read batches
    through it.
  - `meta.rs` and `catalog.rs` hold what the worker says of itself.
  - `laws/` states what holds of the library as a whole.
- `tests/` runs the library with the real Arrow crates.
- `app/` is the worker: VGI's traits, storage, clock and environment.
