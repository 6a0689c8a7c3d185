# autotun

`autotun` discovers TCP services listening on a remote host, forwards them to
local loopback through one OpenSSH ControlMaster connection, and lets you
manage local (`-L`) and reverse (`-R`) tunnels from a terminal interface.

## Layout

- `src/` — the verified library (Verus). Every decision the program makes is
  here, with a contract:
  - `text` — character helpers: trimming, splitting, searching, decimal text.
  - `ports` — tunnels, remote listeners and the `ss` output reader.
  - `scan` — reconciling the tunnel list with a scan, and its laws (two missed
    scans before a target is down, tunnels turned off by hand stay off,
    reverse tunnels are left alone, scans only add tunnels).
  - `engine` — form input, tunnel URLs, and the state machines that enable,
    toggle, edit and delete tunnels and react to scanner reports.
  - `ssh`, `shell` — OpenSSH command lines and shell quoting.
  - `clip`, `open` — clipboard uploads, session records, remote path reading.
  - `remote_app` — Waypipe applications: command lines, diagnostics, and the
    manager that tracks their lifecycle.
  - `gui`, `tui`, `cli` — what the interfaces decide apart from drawing.
- `app/` — the program: command line, terminal drawing, processes, sockets and
  files. It performs what the library asks for and hands back the outcome.
- `tests/` — tests of the library on concrete values.
