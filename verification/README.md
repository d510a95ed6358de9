# switchyard

Routes requests for language models, with the routing logic verified by Verus.

- `src/media.rs`: image and file payloads for the OpenAI codecs.
- `src/state_owners.rs`: which model holds the state behind a stored response or a conversation.
- `src/client_router.rs`: which client serves a model, which prompt a model gets, and which model
  a continuation goes back to.
- `src/run.rs`: candidates in order, buffered routing responses, observations, and the steps of a
  run and of a decision.
- `src/subagent.rs`, `src/affinity.rs`: the route of delegated work around a parent algorithm.
- `src/protocol.rs`: requests, responses and errors.
- `src/json.rs`, `src/text.rs`, `src/status.rs`: the parts of `serde_json`, `std` and `http` that
  the logic calls, each with the contract that it is trusted to meet.

The library takes what the last outside step gave and says which one comes next. `app/` does the
waiting: it drives algorithms, calls clients, reads streams and reports to observers.

Functions named `law_..` are proofs of what holds across calls.
