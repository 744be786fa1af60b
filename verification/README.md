# plus_api

The management API of RustDesk Plus: a multi-client inventory of RustDesk
devices, with per-client installers, a branded desktop client built on
GitHub Actions, a management agent reached over WebSocket, scripts and
commands run on devices, and a connection audit.

## Layout

- `src/` — the verified library (Verus): the server's checks, protocol
  framing, catalog building and state machines, each with its contract
  (row selection and de-duplication are SQL queries in `app/`):
  - `presence` — the hbbs `OnlineRequest`/`OnlineResponse` framing and
    decoding (varints, fields, the states bitmap), with round-trip laws;
  - `catalog`, `client` — the desktop client's address book and group
    pages, login checks, platform names and tag colours;
  - `auth`, `dispatch` — roles, Argon2id password hashes, the client a request is scoped to, token
    lifetime, remote-access passwords, agent keys and delivery reports;
  - `scripts`, `agent`, `audit` — script runs, the agent session as a
    state machine, and connection audit events;
  - `builder`, `installer`, `admin`, `setup` — the branded-client build,
    the per-client installer, administration checks and first-run setup;
  - `text`, `ordered`, `ids`, `error` — shared text helpers, sorted key
    lists, UUID text and the error answers.
- `tests/` — tests of the library on concrete values.
- `app/` — the Axum server around the library: routes, SQL, HTTP calls to
  GitHub, the TCP presence query, the Go toolchain and the WebSocket loop.
