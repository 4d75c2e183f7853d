# sc2dsu

A cemuhook/DSU motion server for the Steam Controller family (wired, BLE, and
the Proteus and Nereid dongles), with its protocol and decision logic verified
in Verus.

- `src/` — the verified library:
  - `bytes` — little-endian encodings and a bounds-checked reader;
  - `dsu` — DSU packet layout, the CRC-32 framing, request decoding;
  - `server` — the subscriber table and the server's answer to each request;
  - `config` — axis mapping, settings and the live settings with a change counter;
  - `triton` — device selection, feature reports, state-report decoding, and
    when a reader reopens the device;
  - `cli` — command-line modes.
- `app/` — the Windows program around it: HID access, the UDP socket, the
  settings file, the floating-point gyro calibration and orientation, the
  tray/settings window and the autostart registry entry.
- `tests/` — tests of the library.
