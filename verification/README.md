# ambientor

The core of an assistant for moving Istio workloads from sidecar mode to ambient mode,
written in Verus: the readiness rules and scores, the application catalog and the
migration dashboard, migration plans and staged rollouts with their approval rules,
VirtualService to HTTPRoute translation, SARIF export, and the access and sign-in rules
of the API. Every function in `src/` carries a contract that Verus proves.

Layout:

- `src/` — the verified library. Calls into outside crates (chrono, urlencoding, url,
  uuid, argon2, password-hash) stand behind small trusted wrappers, each documented with
  what its contract claims of the call.
- `tests/` — tests run against the compiled library.
- `app/` — the command line around the library: reading and writing files, JSON and
  YAML, and the store interface that the API's persistence implements.
