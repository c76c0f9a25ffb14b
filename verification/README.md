# mtrack

A web app that lets clients of class "download" track the positions that clients of class
"upload" post. Download users log in with a name and a password and get a session cookie;
upload users post their position under their password as key.

- `src/` is the verified library: the cookie and session-ID parsing, the user lookups, the
  sessions and positions, and the decision of every HTTP handler, each with a contract, plus
  proofs of the properties that span several requests (`src/laws.rs`).
- `app/` is the program around it: command line, TLS, the HTTP routes (axum), JSON and
  query-string (de)serialization, and start-up.
- `tests/` runs the library on concrete requests.
