# learning_rust

Async HTTP downloads with tokio and reqwest: single, concurrent, bounded,
retried, time-limited and streamed downloads.

- `src/` is the verified library (Verus). It holds the decisions the
  download programs make between their network, disk and timer steps:
  - `status`: accept a response by its status code (2xx only), and tell
    server failures (5xx) that may pass.
  - `content_length`: read a `Content-Length` header value as a number.
  - `progress`: count the bytes of a streamed body, collect it in memory,
    and say what each progress line shows.
  - `retry`: the retry schedule as a state machine, with proofs that it
    hands back the first success, stops at once on a failure that is not
    transient, gives up with the last error after exactly `max_attempts`
    transient failures, and never exceeds that number; and which failures
    are transient (timeouts, broken connections, 5xx).
  - `timeout`: flatten the result of a request raced against a deadline.
  - `gather`: sort joined task results, count successes, total bytes.
- `app/` is the program: the async I/O with reqwest and tokio, progress
  bars with indicatif, and the floating-point back-off delay.
- `tests/` runs the library on concrete values.
