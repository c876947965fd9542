# pipeline

Bus arrival detection from GPS logs, as a verified library with a thin
command-line program around it.

- `src/` — the library, verified with Verus. All quantities are fixed-point
  integers (cm, cm/s, centidegrees).
  - `model` — value types: stops, route nodes and grid, Kalman and
    dead-reckoning state, GPS fixes in route coordinates.
  - `filters`, `heading`, `projection`, `search`, `hysteresis`, `kalman` —
    localization: input filters, heading gate, point-to-segment projection,
    segment search, off-route hysteresis and the per-fix filter step.
  - `state_machine`, `corridor`, `probability`, `recovery`, `detection` —
    arrival detection: per-stop state machine, corridor filter, arrival
    probability, stop recovery, and detection over the whole route.
  - `localization` — fix to route record.
  - `nmea`, `paths`, `output` — NMEA checksum and sentence selection with the
    per-second accumulator, input format and trace naming, output records and
    the JSON form of arrival events.
- `tests/` — unit and scenario tests of the library.
- `app/` — the program: argument handling, file reading and writing,
  floating-point conversions (coordinates, decimal NMEA fields, lookup
  tables) and serde types for trace output.

The program cannot process a route yet: `route_data.bin` is written by a
separate route preprocessor whose binary layout is not part of this project,
so `load_route_data` in `app/runner.rs` refuses every file. The library itself
takes a `RouteData` value built by the caller, as the tests do.
