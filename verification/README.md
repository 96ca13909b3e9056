# screen_light

The decision logic of Screen Light, a multi-monitor screen dimmer that dims the monitors
the cursor is not on (over DDC/CI) and restores the one it moves to, verified with Verus.

- `src/` — the verified library:
  - `controller.rs`: the state kept between polls and what each event does (poll, reload,
    on/off toggles, quit), returned as brightness commands; with the laws it keeps.
  - `monitors.rs`: monitor bounds, the monitor under the cursor, brightness capping,
    device names.
  - `config.rs`: the settings, their defaults and the text of the configuration file.
  - `notify.rs`: scanning directory change records for the configuration file's name.
  - `tray.rs`, `messages.rs`: the tray menu, window messages, command-line flags and the
    hotkey debounce.
  - `text.rs`: UTF-16 decoding of names the system hands over.
- `app/` — the Windows program around it: Win32 calls, the registry, the configuration
  file and its YAML parsing, the message loop.
- `tests/` — tests of the library.
