# dynamic_island

The logic of a floating "dynamic island" capsule for the Windows desktop,
verified with Verus: which printers the capsule shows and how their MQTT
reports add up to a status, the network speed and memory figures, the
settings and the process blacklist that hides the capsule, the shortcuts,
and the images it draws.

- `src/` — the verified library (`printer`, `report`, `json`, `sysinfo`,
  `settings`, `shortcuts`, `window`, `icon`, `text`).
- `tests/` — tests of the library.
- `app/` — the Tauri application around it: windows, tray, threads, files,
  the registry, Win32 calls and the MQTT connections.
