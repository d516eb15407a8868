# kv_cli

A command line client for a key-value store that holds secrets: values, API keys,
and the keys of other services. Values can be encrypted for devices, so that the
server never sees them.

The rules of the client are a library that Verus verifies; the terminal, the files
and the network are ordinary Rust around it.

- `src/` is the library. It sends nothing and prints nothing: its functions say what
  to send or print next, or take what came back and say what follows.
  - `text`, `urlencode`, `encoding`, `json`, `qr`: texts and their encodings.
  - `cipher`, `crypto`, `recipients`: the ciphers, and the envelopes made with them.
  - `config`, `client`, `session`, `bearer`: the settings, requests, sessions, and what
    a request does when the session is missing or stale.
  - `secret_display`, `messages`: when a secret may be printed, and what the operator is
    told of a failure.
  - `fzf`, `agent_detect`: choosing from a list, and guessing who runs the program.
  - `commands`: values, API keys, devices, sessions.
  - `management_keys`: management keys, the keys provisioned with them, and the order
    in which these are created, stored, published and revoked.
- `tests/` runs the library.
- `app/` is the `kv` program.

What the library takes on trust of other crates is stated where they are called, in
`encoding`, `json`, `qr`, `cipher`, `text`, `messages` and `commands::kv`.
