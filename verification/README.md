# tuneitverse

An ECU tuning and diagnostics toolkit whose core is written in Verus and
proved against its contracts.

- `src/` is the verified library: image checksums (GM P01 additive, Bosch
  multipoint), image identification against an ECU catalog, seed/key
  algorithms, diagnostic frames (UDS, KWP2000, J1850 VPW, ISO-TP over CAN,
  Lawicel, Consult), table definitions (XDF, A2L, TableSeek packs), raw table
  reads and patches, logging channels and CSV, the bench script language and
  the decisions of the guided flash pipeline. Laws that relate several
  functions (round trips, fail-closed write rules, checksum fixed points)
  are public proof functions next to the functions they speak of.
- `tests/` runs the library on concrete values.
- `app/` is ordinary Rust around the library: serial ports, the J2534 driver
  binding, files and JSON, and everything that works in floating point
  (physical table values, live PID scaling, voltages).
