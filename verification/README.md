# mom

A memory store for agents. Memories (events, summaries, facts, preferences,
tasks, checkpoints) belong to a tenant and to ever narrower scopes within it.
They are written, recalled by words or by meaning, linked to each other,
consolidated, and ingested from other systems.

## Layout

- `src/` is the library. It is written in Verus, and every function in it but
  the trusted ones named below is proved to meet its contract. It decides what is stored, asked and answered;
  it opens no connection and no file.
  - `memory`, `query`, `facts`, `task`, `link`, `context_pack`: the data and
    their rules.
  - `json`, `text`, `decimal`, `float`, `order`, `model`: the values they are
    made of. Floating-point numbers are carried by their bit patterns and
    compared by value; nothing is computed with them.
  - `store`: the statements sent to the database, the rows that come back, the
    fusion of two rankings, and the walk along links.
  - `service`: the rules of the HTTP interface.
  - `source`, `embedding`, `grpc`: the rules of ingestion, of embedding
    providers and of the gRPC messages.
- `tests/` runs the library on concrete values.
- `app/` is the service around the library: sockets, the database, the clock,
  JSON forms of the types, and the arithmetic of scores.

## What is trusted

Proofs rest on a few items whose contracts are stated and not proved. Each has a
doc comment that says what is claimed: `String::push`, `String::push_str`,
`str::to_lowercase` (`text`), `String::from_utf8` and the base64 engine
(`query`), `serde_json` values, their text and its parser (`json`), the clock and
random ids (`memory`).

## Laws

Functions named `law_..` state what holds of the library as a whole: that what
was written reads back (cursors, rows, links, messages, checkpoints, facts), that
tenants and their narrower scopes are isolated in scoped lookups, in recall and in
deletion, that a batch is written as a whole or answered item by item, that pages
continue where the last one stopped, that a traversal is sound and complete, that
rankings are ordered.
