# resilience

Retry loops with configurable backoff, and a circuit breaker, verified with Verus.

- `src/` is the verified library. Each retry loop is a state machine
  (`Attempts::record`, `CallAttempts::record`) that takes the outcome of an
  attempt and answers whether to finish or to pause and try again; backoff
  strategies compute the pause as a `Delay`. Proof functions named `law_*`
  state what a whole run of a loop does.
- `app/` holds the asynchronous loops that await the task and sleep between
  attempts, driven by the library's decisions.
- `tests/` exercises the library on concrete values.
