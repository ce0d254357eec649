# cloud_stt

Verified core of a desktop client for cloud speech-to-text with two
backends: a streaming recogniser reached over a WebSocket, and a batch
transcription endpoint reached over HTTP.

- `src/` is the Verus library: sign-in state for both services, JWT claims
  and expiry, token refresh steps, request headers and URLs, the multipart
  request body, 16-bit PCM packing, the retry policy for connections and
  requests, the status a session reports while it connects, the WAVE file
  of the recorded audio, and the state machine that
  turns server messages into transcript events. Contracts are stated over
  `Seq`/`Map` models; laws that span several calls are public proof
  functions (`law_*`).
- `tests/` runs the library on concrete values.
- `app/` is the host side: files, clocks, sockets, HTTP clients, threads,
  the desktop shell's commands, floating-point audio conversion, and
  serializable copies of the library's types. The streaming service's
  origin, name, client user agent and credentials directory are
  configuration (`StreamingServiceConfig`), read from the environment.
