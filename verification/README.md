# codex-quota-bar

The verified core of a Windows taskbar widget that shows the remaining
5-hour and 7-day Codex quota.

- `src/` is the library, checked by Verus:
  - `quota.rs`: quota windows and snapshots (percentages in hundredths of a
    percent), the usage response and login file, errors and their texts, and
    the test for a reading that rises before its window resets.
  - `refresh.rs`: what a refresh adopts (an early rise waits for a second,
    matching reading) and the once-a-second refresh scheduler.
  - `layout.rs`: taskbar geometry, widget placement beside the tray and a
    Lyricify Lite bar, popup positions, full-screen detection, and the
    repositioning loop's state.
  - `proxy.rs`: the HTTPS proxy taken from the Windows proxy setting.
  - `release.rs`: version comparison, choice of the release installer, the
    installer script, and the update flow's statuses.
  - `radar.rs`: the Codex Radar summary read from a JSON value.
  - `settings.rs`, `visual.rs`, `text.rs`: settings normalisation, the quota
    colour scale, and string helpers.
- `tests/` exercises the library.
- `app/` is the Tauri application around it: windows, commands, timers,
  HTTP, files, the registry and Win32 calls, and the floating-point parts
  (size scaling, easing).
