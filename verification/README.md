# NebulaDM core, verified

The download manager's rules as a Verus library (`src/`), with a small
command-line driver around it (`app/`).

- `model`: requests, statuses, queue filters, the privacy switch and what is persisted.
- `categories`, `planner`: the built-in categories and the routing of a request to its folder.
- `direct`: direct-download plans, byte-range splitting, resume bookkeeping and the worker's decisions.
- `torrent`, `rqbit`: torrent plans and sessions, the simulated engine, and the real engine's rules.
- `queue`: the queue manager; every operation keeps job ids below the next id.
- `events`: what the desktop does with each report of a running download.
- `quick_add`, `launch`, `desktop`: typed and pasted links, launch arguments, browser captures,
  the saved torrent job, the recent list and deleting the history.
- `ipc`: the browser bridge's request and response text.
- `update`: the update check, on `semver`'s reading and order of versions.
- `setup`: the extension set-up page and the installer script.
- `text`: string helpers.

`app/` holds the I/O: the HTTP transfers (`reqwest`), the TCP bridge, the JSON files
(`serde`, `serde_json`) and the storage folders (`dirs`).
