# perthtransport

Live train tracking for Perth: a worker polls the Transperth realtime API for
the trips that websocket clients follow, and an API server relays the updates.

- `src/` is the verified library: the task manager that ties websocket
  sessions to trips and trip tasks, the conversion of Transperth responses into
  the service's own responses, the decisions of the worker's tasks (when to
  poll, what to publish, which trips to follow), the request signing of the
  realtime API, channel and cache key naming, and configuration assembly.
  Calls into outside crates go through the trusted items of `src/outside.rs`.
- `app/` holds the programs around it: the axum API with its websocket and
  GraphQL routes, the worker's loops over Redis and HTTP, serde copies of the
  library's types, and logging.
- `tests/` runs the library on concrete values.
