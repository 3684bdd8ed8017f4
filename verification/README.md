# nyancat

Terminal Nyancat: the rainbow cat animated in a terminal or over telnet,
written as a library whose behaviour is stated in Verus contracts and
proved, and a small program around it.

## Layout

- `src/` — the verified library.
  - `cli.rs` — the command line: option table, value parsing, errors,
    help text.
  - `classic.rs`, `classic/` — the single-pass front end: a lenient command
    line, numeric terminal codes, and its own telnet negotiation loop.
  - `terminal.rs` — terminal type detection from `TERM` and terminal sizes.
  - `telnet.rs` — the telnet byte parser, option tables and negotiation.
  - `render.rs`, `render/` — frame drawing, palettes, the frame buffer, the
    frame loop bookkeeping and benchmark counters.
  - `animation.rs` — animation frames as 64x64 grids of frame symbols.
  - `strings.rs`, `sys.rs` — string helpers and Unix constants.
- `tests/` — tests of the library.
- `app/` — the program: argument and environment handling, signals,
  clocks, terminal and telnet I/O, and the benchmark summary line.

## Running

The program reads the animation from the file named by `NYANCAT_FRAMES`:
rows of 64 frame symbols, one per line, 64 rows to a frame.
