# codex_gateway

A gateway in front of the Responses interface. Clients speak OpenAI's chat completions format or
Anthropic's messages format; the gateway rewrites their requests, turns what the upstream answers into
chat completions, and chooses the account that a request goes out with.

- `src/` is the library, verified with Verus: what each function returns is stated in its contract, in
  terms of the JSON values, texts and sequences that go in. `src/request_laws.rs`,
  `src/response_laws.rs` and `src/stream_laws.rs` state what holds of every request, every answer and
  every stream; the laws of the candidate
  cache, of the order of candidates and of their selection stand beside the code they are about.
- `app/` is what surrounds it: the environment, the storage, the locks and the log.
- `tests/` runs the library.

JSON text is read and written by `serde_json`. What the library relies on there, and what it relies on
in the standard library, is stated in `src/codec.rs`, `src/clock.rs` and `src/text.rs`.
