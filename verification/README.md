# astrbot_launcher

The core of a desktop launcher for AstrBot instances, written in Verus and
proved against its contracts.

- `src/` is the verified library: the per-instance state machine
  (`manager`), the monitoring rules (`monitor`, `process`), listener and
  file-lock tables (`tcp_table`, `locking`), release and download URLs
  (`github`, `download`), proxy settings (`proxy`), Python runtime and
  dependency rules (`python`), the settings and manifest records (`config`,
  `migration`), version ordering (`versions`), instance startup
  (`lifecycle`) and user commands (`commands`, `snapshot`).
- `app/` is the unverified shell: the redb store, HTTP, processes, locks and
  the monitor task. It hands plain values to the library and acts on what it
  returns.
- `tests/` runs the library on concrete values.
