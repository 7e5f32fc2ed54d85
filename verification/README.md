# musikquadrupled

A proxy in front of a musikcubed server that adds TLS, token-based authentication and
CORS, and lets single tracks be shared through short-lived scoped tokens.

- `src/` is the library, verified with Verus: the token store and its file format,
  scoped tokens and their expiry, Basic authentication, query-string handling, the
  musikcube API messages, the metadata WebSocket login as a state machine, the relay
  decisions, and the decisions each HTTP handler makes. `src/codec.rs`, `src/stores.rs`
  and the randomness and clock wrappers in `src/token.rs` hold the trusted items
  through which the library calls `base64`, `rust-argon2`, `serde_qs`, `scc`, `rand` and
  std.
- `app/` is the server around it: configuration, logging, the axum routers, the HTTP
  client, the WebSocket connections, and JSON (de)serialization.
- `tests/` exercises the library.

## API (public)

All of the `musikcubed` APIs are proxied. On top of those:

- `share/generate/:external_id`: returns a scoped token for the track; the `token` query
  parameter must hold a valid token, else `401 Unauthorized`.
- `share/audio/:scoped_token`: the track (or the `Range` asked for).
- `share/info/:scoped_token`: the track's metadata as JSON; `404 Not Found` if unknown.
- `share/thumbnail/:scoped_token`: the track's thumbnail; `404 Not Found` if unknown.

## API (internal, localhost only)

- `token/generate`: a new token for the `token` query parameter.
- `token/revoke_all`: revokes every token.
