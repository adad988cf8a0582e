# mynmon

A terminal system monitor in the spirit of `nmon`, whose core is verified
with Verus.

- `src/` is the verified library:
  - `text`: decimal numerals, alignment, substring search, parsing of
    unsigned numbers;
  - `utils`: uptime text, fixed-width cells, progress bars, `PID:name` lines;
  - `state`: the monitor's state, the key handling state machine, the
    process start/exit history and the refresh timing;
  - `sorting`: stable insertion sort as a specification, with its law
    (sorted and a permutation) for any total preorder;
  - `procs`: process snapshots (sorted by process id), the filter test;
  - `ui`: the screen as lines of styled spans (header, shortcuts, status
    bar, welcome screen, process table, network list, history, size
    warning) and the choice of panels for a frame;
  - `sections`: the CPU, memory and disk sections from formatted figures,
    and the composition of a frame;
  - `cli`: command-line options and the texts printed for them.
- `app/` is the program around it: it reads metrics with `sysinfo`, draws
  the lines with `crossterm`, formats the floating-point figures (CPU load,
  memory, disks, network speeds, and the bar fill from a percentage) and
  runs the event loop.
- `tests/` exercises the library on concrete values.
