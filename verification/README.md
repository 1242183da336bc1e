# juniper_http

Library-agnostic building blocks for serving GraphQL over HTTP, verified with Verus.

- `src/value.rs`, `src/error.rs`, `src/input.rs`: response values and objects (field
  names stay distinct), field and execution errors, input values and the variables an
  input object defines (last occurrence of a name wins).
- `src/request.rs`: the request document, its operation name and variables, and
  `execute`, which hands exactly those to an application's schema.
- `src/response.rs`: the response wrapper, `is_ok`, the error response, and the layout
  of the JSON object a response is written as.
- `src/stream.rs`: subscription responses and what stream each becomes, or which error.
- `src/object_stream.rs`: the state machine that merges the streams of an object's
  fields into a stream of whole objects.
- `app/`: serde encodings, the `futures` streams driven by the state machine, and the
  async entry points.
