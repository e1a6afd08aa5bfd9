# mcpg-control-plane-client

The gateway-side agent that attaches a running MCPG gateway to a Control Plane:
it registers, keeps a channel open, sends heartbeats, metrics, logs and status,
applies pushed config, and survives outages of the Control Plane.

- `src/` is the library. It is written in Verus: every rule of the agent is a
  function with a contract, and every contract is proved. What it needs of other
  crates (AES-GCM, HKDF, base64, BLAKE3, JSON, random numbers, UUIDs, the clock)
  stands in `externals.rs`, where each call states what is believed of it.
- `app/` performs what the library decides: tonic channels, files, timers and
  tasks. The host supplies the generated messages through the trait `Wire`.
- `tests/` runs the library.

| Module | What it holds |
| --- | --- |
| `agent` | setup, events, enrollment, the loop that keeps an agent connected |
| `session` | what each message of the Control Plane asks for; heartbeats |
| `token`, `rejection`, `creds` | tokens, refused credentials, stored credentials |
| `metrics`, `logs`, `status` | the three outbound lanes |
| `ring`, `ledger`, `flush` | the bounded buffer, laws over its histories, the last flush |
| `lkg`, `payload_dek` | the sealed config cache, payload encryption |
| `backoff`, `client`, `config` | delays, connections, configuration |
| `proto`, `time`, `text`, `bytes`, `paths` | messages and values |
