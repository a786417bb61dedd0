# confirm_service_sdk

Server-side SDK for requester applications of the Confirm service, written in
Verus: the logic is in `src/`, each function with a contract that Verus proves.

- `json`: JSON documents, their canonical form (members sorted by name at every
  depth) and their compact text, with proofs that canonicalization sorts, only
  reorders, is idempotent, and gives one text for documents that differ only
  in the order of their members.
- `request`: builders for login, session-refresh and multi-artifact
  confirmation request bodies.
- `signing`: the `confirm-request-v1` envelope, its `sha256:<base64url>` body
  hash, its RS256 signature and the `x-confirm-*` headers, with a proof that
  the signed payload determines the signed fields.
- `verify`: the steps of verifying a `confirm-response+jwt` against a JWKS, the
  checks on its claims, and the replay-cache trait keyed by `jti` and receipt
  id, with an in-memory cache and a proof that a response it accepted once is
  refused afterwards.
- `receipt`: receipts and their binding to a verified response.
- `client`: base URL, endpoint URLs and status handling of the HTTP client.
- `crypto`: the calls into `base64`, `sha2` and `rsa`, with the contracts that
  the rest relies on.

`app/` holds what is not verified: the HTTP client on `reqwest`, serde copies
of the types, and the token and receipt verifications that parse JSON with
`serde_json` between the library's steps.
