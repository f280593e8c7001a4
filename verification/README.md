# joule_profiler

A verified library for profiling the energy and resource use of a program
phase by phase: it reads RAPL, perf, NVML, AMD SMI, cgroup and `/proc`
sources, splits the run into phases from tokens the program prints, and
aggregates and exports the measurements.

- `src/` is the library, written in Verus: every function carries a
  contract that Verus proves. The hardware, the file system and the
  outside libraries are reached through small traits and trusted wrappers,
  whose answers the contracts quantify over.
- `tests/` holds the tests of the library.
- `app/` is the command-line program around the library: argument
  handling, the real file system and devices, and the loop that runs the
  profiled program.
