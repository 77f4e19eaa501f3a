# ident_remover

Selects and removes stale identities of a Genetec ClearID account, with the selection
logic verified by Verus.

- `src/json.rs`: the JSON values the identity service sends, reading them from text,
  their compact text, and member lookup.
- `src/text.rs`: substring search, text equality and trimming.
- `src/timing.rs`: moments and spans of time, read and measured with chrono.
- `src/filter.rs`: the two filters (inactive status, unmodified for N days).
- `src/endpoint.rs`: the service's addresses and the reading of its answers.
- `src/command.rs`: what each command does, and the confirmation prompt's answer.
- `src/key.rs`: the key file of an API integration.
- `src/escaping.rs`, `src/laws.rs`: proofs about the above.
- `app/main.rs`: the command line, the HTTP requests and the files.
