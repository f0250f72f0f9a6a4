# frdm_server

Fiber rope defect monitoring: a camera watches a running rope, each frame is
normalised, the upper and lower edges of the rope are found, and the columns where
the rope widens, narrows or bends are reported as defects.

## Layout

- `src/` — the verified library (Verus). Its functions carry contracts that Verus
  proves, except the small wrappers around calls into photon-rs, indexmap and std
  (marked `external_body`), whose contracts are trusted as the documentation and
  source of those crates give them. The traits `Eval`, `EvalMut`, `Filter` and
  `ContextRead` carry no contract of their own; their implementations in `src/` state
  theirs.
  - `domain/` — points, colors, the processing-step traits, stream filters.
  - `algorithm/edge_scan.rs` — the column scan that finds the rope edges on a gray frame.
  - `algorithm/rope_distortions.rs`, `mad.rs` — rope widths, their median and median
    absolute deviation, and the runs of columns that stray from it.
  - `algorithm/rope_defect.rs`, `defects.rs`, `rope_defect_kind.rs` — classification of
    the columns of a bend and the joining of columns into reported defects.
  - `algorithm/fine_contours.rs`, `f32_distance.rs` — merging of closed contours that
    come close, with distances measured in single precision as integers.
  - `algorithm/graham.rs` — start point and angular order of a convex hull.
  - `algorithm/detecting_contours.rs` — the photon-rs contour filter chain.
  - `algorithm/buffer.rs` — the frame delay line.
  - `algorithm/edges.rs`, `context.rs`, `conf.rs`, `mat_type.rs` — edge storage,
    result stores, settings and matrix element types.
- `tests/` — tests of the library on concrete values.
- `app/` — the program around the library: the camera, the OpenCV image operators,
  configuration reading, and the steps that compute in floating point.

Values that the pipeline computes in floating point and hands to the library (a
threshold times a median absolute deviation, a merge distance) are converted by
`app/` into the integers around them, so that every comparison the library makes is
exact.
