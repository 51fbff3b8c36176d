# Oxide Chat

A room-based chat stack: a relay that routes `/room/{room_id}` WebSockets to a
per-room Durable Object, and a terminal client. Every client sends the same
JSON wire payload (`sender_id`, optional `avatar_url`, `payload_cipher`,
`created_at`).

## Layout

- `src/` — the library, verified with Verus:
  - `text.rs`: trimming, prefixes, ASCII case, number formatting over `Seq<char>`;
  - `clock.rs`: the wall clock in milliseconds and `HH:MM:SS` labels;
  - `wire.rs`: wire messages, payload text, reading received frames;
  - `route.rs`: the relay's decisions (room routing, upgrade check, relay targets)
    and the relay law: a frame reaches every other socket of the room, never the sender;
  - `config.rs`: the client's command line and room URLs;
  - `client.rs`: the client's state machine (keys, commands, network events,
    reconnection) and its laws;
  - `avatar.rs`: `data:` URLs, image extensions, the avatar cache;
  - `view.rs`: the screen as plain text;
  - `wrappers.rs`: the calls into std, `url`, `base64`, `percent-encoding` and
    `chrono`, with the contracts that the proofs rely on.
- `tests/` — tests of the library on concrete values.
- `app/` — terminal, network and file I/O: the client's `main`, and the relay
  in `app/backend.rs`, whose Worker entry points are registered when it is
  built for the Workers runtime (wasm32).
