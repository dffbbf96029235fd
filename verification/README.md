# armtemp

The logic of ARMtemp, a temperature monitor for Snapdragon X / X2 (and other
Windows-on-ARM) processors, as a library verified with Verus.

## Layout

- `src/` — the verified library.
  - `text.rs`: character-sequence helpers (search, trimming, decimal and
    hexadecimal parsing) with their specifications.
  - `identity.rs`: `CpuIdentity`, the registry signals of the CPU, and what is
    read out of them (highest rated clock, normalized name, the clock in the
    marketing name, the Oryon generation in the `Identifier`).
  - `chips.rs`: the chip profile table and the layered detection
    (`match_profile`), with its laws.
  - `topology.rs`: per-core efficiency classes from the OS topology entries,
    their P/E kinds, and core-instance name parsing.
  - `summary.rs`: the chip labels a sensor snapshot carries.
  - `tray.rs`, `taskbar.rs`, `render.rs`, `glyph.rs`: tray-icon decisions,
    plate geometry, taskbar colors, the supersampling box filter and the
    layout of the digits and degree mark.
  - `settings.rs`: settings defaults and parsing, and the edge-triggered
    overheat protection.
- `tests/` — the test suite.
- `app/` — the Tauri application around the library: PDH and registry
  readers, the GDI renderer, the poll loop and IPC commands. Not verified.
