# cellguard

The verified core of an agent cell runtime, written in Verus.

- `src/prompt/`: typed prompt templates (rendering, defaults, composition),
  version comparison, and a registry of templates by name and version.
- `src/resilience/`: decorators around a `Port` (bulkhead, circuit breaker,
  token-bucket rate limit, retry).
- `src/runtime/`: the message-level rules of the runtime: the layer rule and
  the architecture guardian, the interceptor chain, loop detection, mailboxes,
  the message bus, dead letters, supervision with circuit breakers, the
  entropy governor's action and cooldown rules, the decisions of the
  dispatch loop, and start-up checks.
- `src/signal.rs`, `src/json.rs`, `src/strmap.rs`, `src/text.rs`: the message
  model, JSON values, an insertion-ordered string map, and string helpers.
- `src/clock.rs`: the reads of the wall clock and of the monotonic clock
  that supervision measures its windows on.

`app/` holds what stays outside verification: serde and `Display` bridges, the
floating-point parts of backoff and throttling, async wrappers, and a dead
letter store kept in a JSON file.
