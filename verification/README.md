# chapaty_garden

The decision logic of a set of trading agents for the Chapaty backtesting
engine, verified with Verus.

- `src/` — the verified library:
  - `time.rs`: millisecond instants, UTC dates, whole-minute spans, and the
    Berlin and New York local date and hour (through chrono / chrono-tz);
  - `grid.rs`: grid-search enumeration (every combination exactly once, in
    nested-loop order), products of lists, numbering of kept entries;
  - `news/fade.rs`: the news fade state machine; `news/hybrid.rs`: the
    breakout-first arbitration between the news breakout and the news fade;
  - `overnight.rs`: the US open reversal (OCO limit orders on the overnight
    range, time exit, cancel at the 16:00 New York session end) and its
    parameter grid;
  - `scalping.rs`: the VWAP/OBV-RSI scalper's rolling window, exit checks,
    cooldown, pyramiding and entries;
  - `smc.rs`: the fair-value-gap strategy's phases, daily timeout and
    structure handling.
- `app/` — the agents wired to the engine: data in, orders out, the
  floating-point indicator and price arithmetic, environments, grids.
- `tests/` — tests of the library.

Prices and other floating-point values never enter the library: the caller
computes them and hands over the comparisons it needs, or carries them
through the library as opaque values.
