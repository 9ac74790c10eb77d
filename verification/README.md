# acer-hybrid

A local-first AI operations tool: it routes model requests to local and
cloud providers, enforces policy rules on them, redacts sensitive data,
keeps API keys in an encrypted vault, and serves an OpenAI-compatible
gateway.

## Layout

- `src/` is the library, written in Verus. Every function there carries a
  contract that Verus proves:
  - `rules`, `engine`, `redaction`, `validation`: policy rules and how they
    layer, the checks a request goes through, and PII redaction;
  - `vault`, `crypto`, `encoding`: the secrets vault (AES-256-GCM under a
    PBKDF2 key), with laws relating a store to the reads that follow it and
    a key rotation to the secrets it keeps;
  - `gateway`: authorization, the sliding-window rate limiter (with a proof
    that, over any history of requests, no stretch of one window admits more
    than the limit) and metrics;
  - `provider`, `runtime`, `config`, `cli`, `trace`, `types`: routing,
    retries, the wire shapes of each provider's API, configuration values,
    menu and plugin logic, and the shared data types.
  Calls into outside crates (regex, ring, base64, hex, sha2, rand, uuid,
  chrono) go through small trusted wrappers whose contracts say what those
  crates document.
- `app/` is the program around the library: command-line parsing, files,
  HTTP, SQLite, the gateway server and everything asynchronous.
- `tests/` runs the library on concrete values.
