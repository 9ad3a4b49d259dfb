# Notekeeper

A macOS menu bar app: each Telegram bot is bound to a local markdown file, and
what its owner sends is appended to that file with a timestamp. Files are saved
to a folder and noted.

- `src/` is the library, verified with Verus. It holds what the app decides: how
  replies of the Bot API are read (`api`, `json`), what an update leads to
  (`poll`), how files are downloaded and named (`download`, `worker`,
  `filenames`, `paths`), the daily send-back (`daily`, `chunk`, `clock`), the
  settings and tokens (`config`, `secrets`), the local server (`server`), and
  what the dashboard and the tray show (`status`, `tray`). The long-running
  loops are state machines with an exact transition function; what they promise
  is proved over it (`poll_laws` and the last section of the other modules).
- `app/` performs what the library asks for: HTTP, files, processes, the windows.
- `tests/` runs the library.
