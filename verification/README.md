# apollo_mcp_server

A library that turns GraphQL operations into tools for a language model, written and
proved in Verus. From an operation document and a GraphQL schema it derives the tool's
name, description and hints, the JSON Schema of its variables, and the document, variables
and headers of the requests that the tool makes. A second tool tells of the types of the
schema.

- `src/` is the library.
  - `json`, `text`, `string_map`: JSON values, texts and maps by name.
  - `graphql`, `document`, `shaken`, `tool`, `notice`: the data that the rules speak of.
  - `schema_walker`: the JSON Schemas of GraphQL types. `definitions` says what they are,
    `layout` in which order their members stand, `reachable` which definitions are collected,
    `walk` builds them, `nullable` says when null is valid against a schema and adds it,
    `references` proves that every reference has its definition, and `acceptance` that GraphQL
    nullability decides whether null is valid.
  - `operation`: from the document (`select`, `comments`) over the tool (`description`,
    `input_schema`, `load`) to the request (`execute`, `headers`), with what is to be told on
    the way (`warnings`).
  - `introspect`: the tool that tells of types.
- `app/` connects the library to the protocol, the compiler's schemas, the log and the
  lock around a schema that can change.
- `tests/` runs the library with the crates that it calls.

Functions marked `external_body` call `serde_json`, `schemars`, `apollo_compiler`, `regex`,
`http` and the standard library. Each says in its comment what is believed of the call. The
functions named `law_...` state what holds across functions.
