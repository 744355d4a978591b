# clash_tray

A tray monitor and controller for a Clash / Mihomo external controller,
with its logic verified by Verus.

- `src/` is the verified library:
  - `country` — country codes from proxy node names (overrides, flag
    emoji, bracketed codes, prefixes, Chinese and English keywords), flag
    emoji and display names of codes;
  - `clash` — the controller's answers, request addressing, status mapping
    and error texts;
  - `poll` — snapshots from a `/proxies` answer (groups in display order,
    members, countries, delays), traffic figures, subscription details,
    detection of automatic switches, and the poll loop's decisions;
  - `commands` — which group and node quick switch and "Auto select"
    choose, and the optimistic update of the snapshot;
  - `tray` — tooltip, info line, quick-switch submenu, menu-event
    decoding, popup placement, when the menu is rebuilt;
  - `notify` — notification texts; `settings`, `state`, `events` — data;
  - `text` — character-level helpers.
  Each module states its laws as `law_*` proof functions.
- `tests/` exercises the library.
- `app/` is the Tauri program around it: windows, tray, HTTP requests,
  the poll loop's waiting, settings storage and notifications.
