# driftling

A desktop pet that lives on top of the windows, keeps a journal of its
care, and moves between devices through a small sync server.

`src/` is the verified library (Verus). Each module states its behaviour
in `requires`/`ensures` over spec functions and proves it; the laws that
span several calls are public proof functions named `law_*`.

- `lease`, `events`, `token`, `server_config`: the sync server — the
  presence lease (newest claim wins, the ousted device is told once), the
  selection of events newer than a client's cursors, event ids and batch
  validation, bearer tokens and their stored hashes.
- `push`, `presence`, `remote`: the client's sync worker — what to push,
  lease transitions and back-off, the worker's timetable, server addresses
  and the doctor's checks.
- `daemon`, `effects`, `menu`, `ctl`, `paths`, `protocol`, `text`: the
  daemon's decisions, the pet's short-lived looks and sleep log, the
  context and tray menus, the `ctl` client, file locations and the control
  protocol's versions.
- `cluster`, `blit`, `pixel`, `window`, `surfaces`, `pointer`,
  `supervise`: the overlay — clustering the scene into surfaces, drawing
  sprites into a surface's buffer, pixel blending and byte orders, the X11
  window, the Wayland surfaces, pointer grabs, pacing and reconnection.

`app/` is the sync server's executable: command line, HTTP routes, SQLite
storage and configuration file, calling the library for every decision.

`tests/` runs the library on concrete values.
