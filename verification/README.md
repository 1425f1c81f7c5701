# conjure-verification

Building blocks of the Conjure verification client and server, written in Verus: each function
states what it does in `requires`/`ensures` contracts, and Verus proves the code against them.

## Layout

- `src/` is the verified library.
  - `error`, `params`: Conjure errors, their codes, parameters and serialized form.
  - `verification_error`, `verification_client`, `cases`: the verification client's errors, test
    cases and the checks it makes of a server under test.
  - `conjure_value`: Conjure types and values, reading a JSON value as a value of a type, and
    comparing values (sets and maps without regard to order).
  - `config`: service discovery configuration, its builders and the merging of a configuration
    file's settings (`config::raw`).
  - `service_client`, `outgoing`, `retry`, `backoff`, `node`, `proxy`, `socket`, `client`: the HTTP
    client's decisions: which node to try, how a request's URL and headers are formed, when and
    how long to back off, how connections are opened, and how responses are read.
  - `server`, `media`, `quality`: the HTTP server's request parameters, content negotiation and
    responses.
  - `naming`, `text`, `time`, `user_agent`, `request`: text, durations, user agents and path
    templates.
- `tests/` exercise the library.
- `app/` is the verification server: it reads the test cases and a file that gives each
  endpoint's body type, listens on `PORT` (8000 by default) for requests
  `{"endpointName": ..., "testCase": ..., "baseUrl": ...}`, sends the test case to the server
  under test over plain HTTP (directly or through an HTTP proxy, as the library plans the
  connection), in a zipkin trace context that the library propagates as B3 headers, retrying as
  the library decides, and answers `204` or the error.
  It also holds the JSON and configuration formats of the library's types. A body type is written
  as `{"type": "primitive", "primitive": "STRING"}`, `{"type": "optional", "item": ...}`,
  `{"type": "list" | "set", "item": ...}`, `{"type": "map", "key": ..., "value": ...}`,
  `{"type": "enum", "values": [...]}`, or `{"type": "object" | "union", "fields" | "variants":
  [{"name": ..., "type": ...}]}`.
