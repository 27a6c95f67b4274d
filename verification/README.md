# ws_gateway

A gateway between WebSocket clients, webhooks and Kafka queues.

- `src/` is the verified library: the session table and the shared state
  (`shared`), what a connection does with them (`connection`), the JSON
  model and event names (`json`), messages (`message`), the configuration
  model (`settings`), templates (`template`), the administration logic
  (`admin`), the Kafka client settings (`kafka`), decimal session numbers
  (`decimal`) and the properties that hold across operations (`laws`).
- `app/` is the server around it: axum routes, WebSocket tasks, HTTP calls
  with reqwest, the Kafka producer and consumer, loading `config.toml` and
  the `assets` templates, and the serde forms of the library's types.
- `tests/` exercises the library on concrete values.
