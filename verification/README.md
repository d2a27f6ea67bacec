# vigil

A terminal dashboard for locally running Redis, MongoDB, Kafka, RabbitMQ and
InfluxDB services, with its decision logic verified in Verus.

- `src/` is the verified library: the interface state machine (keys, mouse,
  tabs, selections), where the tab bar and panels lie on the screen, what
  every panel shows, the text processing the
  collectors apply to server replies, the log and online bookkeeping, and the
  settings precedence.
- `app/` is the program around it: the terminal, the event loop, drawing with
  ratatui, and the network collectors.
- `tests/` exercises the library on concrete values.
