# rinha-rust-warp

A payment intake service: an HTTP server queues submitted payments on a NATS
JetStream stream and answers per-gateway summaries from PostgreSQL; a worker
delivers each queued payment to a default or a fallback payment processor.

- `src/` is the verified library (Verus): the retry policy as a state machine
  with its laws, payload cleaning, the summary tally, and the settings and
  fixed replies of the service.
- `app/` is the program around it: HTTP, NATS, PostgreSQL, the clock, and the
  floating-point amounts.
- `tests/` runs the library on concrete cases.
