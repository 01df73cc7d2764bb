# bunner_cors_rs

CORS decision-making and response-header generation, verified with Verus.

A `Cors` engine is built from `CorsOptions` (refused, with the first
misconfiguration, when the options break the CORS rules) and evaluates a
framework-neutral `RequestContext`: a request whose method is `OPTIONS` is a
preflight, any other a simple request. The outcome is a `CorsDecision`
carrying the response headers to send, in insertion order, or a `CorsError`
when a custom origin callback answers with the wildcard while credentials
are enabled.

## Layout

- `src/` — the verified library. Each module states its behaviour over a
  character-sequence model (`text`, `util`), and `cors::check_admits` states
  the complete outcome of an evaluation. Laws that relate several functions
  are public proof functions next to them (`cors`, `options`, `util`,
  `header_builder`, `headers`).
- `tests/` — executable tests of the library.
- `app/` — the error types with `Display`/`std::error::Error`, and the
  closure signatures that origin predicates and callbacks take.
