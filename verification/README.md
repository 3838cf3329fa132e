# scx_scheds

Userspace control logic of four `sched_ext` CPU schedulers, verified with Verus.

- `happy`: virtual niceness and three queues; recognises games, desktop, input and audio
  tasks.
- `astro`: dispatch lanes with slices that are tuned to the workload, and profile
  overrides by environment variable.
- `autoland`: classification of tasks, and controllers of the slices of three task
  classes by load and by tail latency.
- `descent`: a PIE controller for every CPU and task class, share-based autorate
  control, profiles with parameter bounds, Thompson sampling, and safety checkpoints.

`src/` is the library. Every function states in its contract what it returns and what it
changes; laws that relate several functions are public proof functions next to them. The
library neither reads nor writes anything: it takes what was read from `/proc` and from
the kernel as plain values, and returns decisions, numbers and texts. Time is passed in as
nanoseconds.

Fractions are whole numbers: thousandths for rates and losses, millionths for errors and
outputs of control loops, billionths for shares of CPU time, and `ratio::Ratio` for loads.
Results are rounded as the contracts say.

`app/` is the program around it: command line, `/proc`, the kernel side (a BPF object
file), statistics, and what needs floating point (the Adam optimizer, random draws, slice
ratios of the command line).

`tests/` holds the tests of the library.
