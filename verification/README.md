# todo_api

A to-do list web service backed by MongoDB.

- `src/` is the verified library: the request types (`types`), how optional
  request fields are read (`fields`), object identifiers (`ids`), the model of
  the driver's BSON documents (`document`), the filter and update documents of every
  database operation (`queries`), and the decisions the handlers take before
  touching the database (`routes`).
- `app/` is the server: HTTP routing (axum), the MongoDB driver calls, the
  environment, the clock, and the serde copies of the request types.
- `tests/` runs the library on concrete values.
