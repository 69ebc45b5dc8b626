# core_statistics

Event statistics of a multi-core simulation, verified with Verus.

- `src/` is the library. Every function in it has a contract that Verus proves;
  nothing is trusted. The statements that relate several functions are the proof
  functions whose names begin with `law_`.
- `app/` is the plugin around it: callbacks of the emulator, clocks, threads and
  files.
- `tests/` runs the library on concrete values.

The functions of the library work on one simulation at a time and take its state
as an argument. The plugin keeps that state behind locks.
