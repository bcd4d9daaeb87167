# interactive_credential

The decisions of Azure's interactive browser credential, verified with Verus.

- `src/auth_code.rs`: extracting the `code` parameter from the redirect request, with
  its specification and laws.
- `src/flow.rs`: the browser launch and the local redirect server as a state machine
  that hands out one outside action at a time (spawn a process, bind, poll, read a
  line, answer, ...) and takes back its result.
- `src/scopes.rs`: the scopes a token request asks for.
- `src/credential.rs`: the credential's options and their defaults.
- `src/token.rs`: token lifetime and the missing-code error.
- `app/`: the I/O that performs the flow's actions, and the conversions to the OAuth2
  types.

Not here: acquiring a token (`get_token`, its authorization-code exchange, the token
cache and the `TokenCredential` implementation). They rest on the authorization-code
flow module, the token cache and `azure_core`, none of which is part of this crate's
sources; the pieces of `get_token` that are the library's own logic (the scope list,
the missing-code error, the token lifetime) are in `src/`.
