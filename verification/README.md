# sidecar

A product-agnostic manager for the sidecar processes of one project: it reads
an explicit manifest, checks it (`doctor`), turns it into an execution plan,
stamps every spawned sidecar with `--sidecar-stamp-{app,namespace,mode,source}`
so that it can be found again, and exchanges one line of JSON with a sidecar's
inspect socket.

Layout:

- `src/` — the library, verified with Verus: manifest checks (`state`), plans
  (`plan`), the stamp args protocol (`stamp`), socket endpoints (`socket`),
  data paths (`paths`), the inspect exchange (`inspect`), process table lines
  (`process`), the command lines of `sidecar` (`cli`, `commands`) and
  `tauri-dev` (`tauri_dev`), their text output (`output`), and the character
  helpers they share (`text`).
- `app/` — the programs: reading the manifest file (TOML), the environment,
  sockets, `ps`/`kill`, spawning, and printing.
- `tests/` — tests of the library.
