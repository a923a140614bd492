# gg-runtime

The decision logic of a standalone agent runtime server, written in Verus
and verified against its contracts, with a thin program around it.

- `src/` — the library. Provider kinds and the provider registry, the
  application's configuration checks and start-up order, the process
  manager's rules (restart recovery, launch numbering, run slots,
  retention, ownership, listings, launch plans, output accounting, final
  states, log windows), the tool gateway's routing of `gg_process_*` calls
  and its answers, HTTP error statuses, bearer-token checks,
  event replay paging and the replay-to-live hand-off, and the command line.
  Laws that relate several operations are public proof functions next to
  the functions they speak of.
- `tests/` — tests on concrete values, run against the compiled library.
- `app/` — the `gg-runtime-server` program: configuration, bootstrap,
  process spawning and supervision with tokio, the tool gateway's JSON, and
  the axum HTTP server with the health, version and provider routes. Its
  store keeps process records in a JSON file beside the database file, so
  that a restart recovers them; runtime events live for one run. The
  process manager and the tool gateway take their decisions (launch plans,
  launch numbers, run slots, output accounting, final states, log windows,
  tool answers) by calls into the library. The session, turn, event and
  stream routes are not served: the session runtime they run on is not part
  of this project, so the replay paging and hand-off rules stand in the
  library only.
