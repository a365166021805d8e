# VaporForge

A desktop manager for a Steam library: it adds non-Steam games as Steam
shortcuts, edits and removes them, and browses and applies artwork from
SteamGridDB.

## Layout

- `src/` — the library, verified with Verus. It holds the rules of the
  application, each with a contract:
  - `steam/` — shortcut AppIDs (CRC-32 with the high bit set), the
    `shortcuts.vdf` model and its encoding, Steam's user directories and
    derived paths, and the list of installed games.
  - `scanner/` — game-folder detection: one game per folder, the largest
    `.exe` inside it, blocklisted folders skipped.
  - `griddb/` — artwork file names and the files a game's artwork occupies,
    image queries, page URLs and API responses.
  - `autoadd.rs` — which detected games are new and how they are appended.
  - `config.rs` — the settings and their defaults.
  - `ui/` — the decisions behind the pages: the bounded message log, the
    settings form, the shortcut manager and the artwork browser.
  - `text.rs` — character-level helpers shared by the above.
- `tests/` — tests of the library.
- `app/` — the program around it: the egui interface, file and network
  access, the settings file and logging.
