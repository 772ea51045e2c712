# Wind-turbine blade condition monitoring

A monitoring backend for wind-turbine blades: it receives strain readings,
acoustic-emission events and damage features, keeps a health summary per
blade, raises alarms on delamination growth and natural-frequency shift,
and pushes them to the maintenance execution system (MES).

Layout:

- `src/` — the library, verified with Verus: blade health cache, damage
  statistics and health rankings, alarm cooldowns, bounded measurement
  histories, per-blade strain reading buffers, identifiers, InfluxQL query
  texts, and the size checks of the signal-processing stages. `src/laws.rs`
  states the properties that span several operations.
- `tests/` — tests of the library on concrete values.
- `app/` — the HTTP service (axum), InfluxDB and MES I/O, and the
  floating-point signal processing, classification and kriging, built on
  the library.
