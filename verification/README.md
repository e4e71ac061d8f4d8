# rwatch

A terminal system monitor: uptime, load, memory and per-CPU usage, refreshed
every second, scrollable with the keyboard and mouse.

- `src/` is the library, written in Verus and proved against its contracts:
  - `text`: lines, white-space fields, decimal numbers and trimming over
    `Seq<char>`, with `str::lines`, `str::split_whitespace`, `str::parse::<u64>`
    and `str::trim` stated as spec functions;
  - `memory`: `/proc/meminfo` parsing and KiB arithmetic;
  - `uptime`: `/proc/uptime` fields and `"{d}d {hh}h {mm}m {ss}s"` formatting;
  - `cpu`: tick counters, busy/total deltas, usage bars, `/proc/stat` parsing;
  - `model`: one system sample;
  - `ui`: the frame lines and the part of them a terminal shows;
  - `input`: keyboard/mouse events, actions, and the main loop's next step.
- `app/` is the program: terminal I/O through `crossterm`, the platform readers
  (`/proc` on Linux, `libc`/`mach2` on macOS), and the floating-point figures
  (percentages, GiB, bar rounding).
- `tests/` runs the library on concrete values.
