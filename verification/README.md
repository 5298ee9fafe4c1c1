# proxy_pulse

A proxy pool service. Proxy lists are read from files and URLs, stored in
SQLite, checked periodically and served over an HTTP API.

- `src/` is the verified library (Verus): the proxy list parser
  (`sources`), the text primitives it is built on (`text`), the request
  parameters and answer bodies of the API (`api`), the schema upkeep
  decisions (`db`), the address format of served proxies (`models`), the
  configuration records (`config`) and the programs of the background tasks
  (`scheduler`).
- `app/` is ordinary Rust around it: configuration loading, the SQLite
  store, the axum routes, downloads, and the loop that carries out the
  background tasks' actions.
- `tests/` runs the library on concrete inputs.
