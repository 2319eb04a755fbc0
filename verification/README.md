# pystamps

A verified core for the native stages of a persistent-scatterer InSAR
processing chain (StaMPS-style): the MAT v5 file format, the pipeline plan,
the command line, and the decisions of the stage runners, with their
contracts proved by Verus.

## Layout

- `src/` — the library, verified by Verus.
  - `mat/` — MAT v5 encoding and decoding over bytes, with the law that a
    read gives back what a write wrote.
  - `plan.rs`, `stages.rs`, `dataset.rs` — the stage inventory and the plan of
    a pipeline run over a dataset.
  - `cli.rs`, `web.rs` — the command line (the `run`, `stage`, `coverage`
    and other subcommands, with the checks of backends and step ranges) and
    the checks of the web form.
  - `calendar.rs` — day numbers of `YYYYMMDD` dates (with the law that the
    day after a date counts one more, across months, years and leap days)
    and the order of the acquisitions.
  - `graph.rs`, `interp.rs`, `weed.rs` — edge tables, connectivity, the
    interpolation graph of the unwrap grid, and the weeding of neighbouring
    and duplicated points.
  - `select.rs` — picking rows and values of row-major matrices, transposing,
    and putting the points of a matrix in its rows.
  - `grid.rs` — the cells of the filtering grid and their numbering.
  - `uw_grid.rs` — the unwrap grid of stage 6: its kept cells, their mask
    and cells, and the grid node of each point.
  - `stage1.rs`, `stage2.rs`, `stage4.rs` … `stage8.rs` — each native stage
    runner as a step function: from
    where the runner stands and what the last piece of outside work gave, to
    the next state and the next action.  The index layouts of the artifacts
    are decided here too: which input row and column each row and column of
    the stage 1 and stage 5 outputs holds, and which columns of
    `bp1.bperp_mat` stage 2 takes.
  - `parity.rs` — the records of comparisons against reference fixtures.
- `app/` — the program around the library: file I/O, the floating-point
  kernels, the web console, and the loops that drive the step functions of
  stages 1, 2, 4, 5 (per patch), 6, 7 and 8.  Stages 4 and 6 run within
  `run`; the `stage` subcommand refuses them, as the command line always
  has.  Stage 3 and the stage 5 merge have no runner here; `run` and `stage`
  say so when asked for them.
- `tests/` — tests of the library on concrete values.

Floating-point values that the library carries (MAT payloads, tolerances,
coordinates compared for equality) are held as the bits of their IEEE 754
encoding.
