# blezer

Blezer passively listens to BLE advertisements, stores every observation in
SQLite and serves a web dashboard. This crate is its verified core:

- `ble::parse` — SIG company id to vendor; the walk over Apple Continuity
  messages; the best-effort model (proximity pairing with battery levels,
  Find My status, category labels); Find My rolling-identity detection; the
  primary manufacturer entry of an advertisement.
- `ble::laws` — properties of the decoder proved for all payloads.
- `ble::observe` — one advertisement to one observation, and the per-device
  write throttle of the scan loop.
- `store` — the JSON columns written for an observation and the device report
  built from a stored row.
- `report` — labels and truncation of the terminal device list.
- `order`, `text` — string order and sorted tables; decimal / hex rendering.

`app/` is the program around it: command line, Bluetooth scanning, SQLite,
the web server and the macOS menu bar.
