# event_producer

A producer of synthetic events. A generator makes messages of random bytes
on a noisy per-second schedule and sends them over a channel, closing the
run with an empty message; a production loop hands every message to Kafka,
Redis or the standard output until that empty message arrives. Prometheus
metrics are served over HTTP.

- `src/` is the verified library: the settings and the choice of the
  settings file (`settings`), decimal numerals and joined lists (`text`),
  the random generator and the generation schedule (`generator`), the
  decisions of the production loop and the configuration of the Kafka and
  Redis producers (`producer`).
- `app/` is the program around it: reading the settings, the threads, the
  channel, the noisy signal, the HTTP server and the producers' network I/O.
- `tests/` exercise the library on concrete values.
