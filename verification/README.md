# nextcloud_talk

A Nextcloud Talk channel in webhook mode, verified with Verus.

- `src/` is the verified library. It turns webhook payloads into messages
  (`webhook`), messages and reactions into HTTP requests (`outgoing`), and signs
  and verifies both with HMAC-SHA256 (`signature`). It performs no network I/O.
- `tests/` runs the library on concrete values, with the real outside crates.
- `app/` performs the requests with an HTTP client and hands parsed payloads to
  the library.

Public proof functions whose names start with `law_` state what holds of the
library as a whole, for instance that every signed request passes the
verification of webhooks, and that no message of a bot is ever delivered.

What is trusted without proof are the items marked `external_body` and the
`assume_specification` items: thin wrappers around `hmac`/`sha2`, `hex`,
`serde_json`, `urlencoding`, `uuid`, the status codes of `reqwest` and the system
clock. Their doc comments say what is claimed of each.
