# scnative_core

The logic of a SoundCloud desktop client, written in Verus and proved
against its contracts.

- `src/edge.rs`: the per-origin transport ladder (direct or relay), the
  verdicts it keeps, what goes to disk and back, and its laws.
- `src/catalog.rs`, `src/routes.rs`: the local catalog endpoints: which
  SoundCloud API request answers each path, and how each outcome becomes
  the reply.
- `src/scapi.rs`: the request flow against the SoundCloud API with its
  client id and circuit breaker, URL building and the LRCLIB lookups.
- `src/yt.rs`: YouTube through a managed `yt-dlp`: the input gates, command
  lines, output parsing, and the flows for acquiring the binary, fetching a
  release and retrying a download.
- `src/json.rs`, `src/text.rs`: the JSON document model and string helpers.
- `src/outside.rs`: the calls into `url`, `regex` and `urlencoding`, each
  behind a trusted contract.
- `app/`: the shell that performs what the library decides: files,
  processes, HTTP, the local web endpoint and the UI's events.
