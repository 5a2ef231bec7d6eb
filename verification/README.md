# camera_toolbox_app

The application core of a camera toolbox: sessions that calibrate a camera, a store for captured
assets, and an engine that runs graphs of nodes. It is a Verus library: what each function does is
stated in its contract and proved.

- `src/calibration` — the calibration session: dataset items, detection and calibration jobs,
  coverage, quality gates, the admission of automatic candidates.
- `src/asset.rs` — captured assets under budgets per operation and overall.
- `src/engine` — mailboxes, graphs and their topology, packets, the node registry, and the nodes
  themselves under `src/engine/nodes`.
- `app` — ordinary Rust around the library: floating-point geometry, serde documents, threads, and
  the traits of the services that nodes call on. A node of the library never performs I/O. It
  returns what has to be done, `app` does it, and hands the outcome back.
- `tests` — tests of the library.

Floating-point numbers appear in the library by their bit patterns only. Comparisons between them
are proved; arithmetic on them is done in `app`, and its results are arguments of the library.

Functions named `law_…` are the properties that span several operations.
