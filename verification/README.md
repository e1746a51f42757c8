# bt_rs

A small back-testing engine for trades on minute bars, with its logic proved
in Verus.

- `src/` is the verified library. A price table is seen through the
  timestamps of its rows; a trade (`StrategyConfig`) selects the rows inside
  its holding window, in time order (`StrategyCase::new`), is closed at the
  earliest of its maximum holding period, its first take-profit bar and its
  first stop-loss bar (`StrategyCase::unwind`), and yields an `Execution`
  naming the rows its entry and exit prices are averaged over.
  `Strategy::run` does this for many trades. `calendar` holds the date
  arithmetic, done by `chrono`; `data` makes synthetic minute bars with
  `rand_chacha`.
- The library never holds a `polars` data frame: the close column is
  floating point, and a frame gives its rows no identity of their own, so the
  library works on what stands for them, row numbers and timestamps, and
  filters and orders them itself (a verified merge sort).
- `app/` is the program around it: it builds and reads `polars` data frames,
  computes the floating-point prices and the per-bar take-profit and
  stop-loss signals, and prints the executions.
- `tests/` runs the library on concrete tables.
