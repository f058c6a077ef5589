# sqlx_core

The parts of a PostgreSQL and SQLite driver that decide what goes over the wire, with contracts
that Verus proves.

- `src/postgres/quoting.rs`: quoted channel names, and the `LISTEN` and `UNLISTEN` statements.
- `src/postgres/reading.rs`: that a server reads those statements back as they were meant.
- `src/postgres/notification.rs`: asynchronous notifications.
- `src/postgres/listener.rs`: the subscriptions of a listener, and how it receives and reconnects.
- `src/postgres/sasl.rs`: the client's side of SCRAM-SHA-256.
- `src/postgres/primitives.rs`: the outside functions that SCRAM-SHA-256 rests on, with what is
  believed of each.
- `src/text.rs`: what is believed of two functions of std's strings.
- `src/sqlite/types/boolean.rs`: truth values in SQLite.
- `app/`: the asynchronous side, which performs what the library decides.
