# ttgtiso_desk

The core of TTGTiSO-Desk, a remote graphical access system for closed local
networks, as a library whose behaviour is stated in contracts and proved with
Verus.

- `src/` — the verified library: the TTMP frame, input and file-chunk
  encodings, capability negotiation, authentication, roles, access policy and
  secret redaction, the audit journal, desktop session management (display
  allocation, session listing, resume tokens, the X11 backend's decisions),
  input policy and XTEST request generation, clipboard and file-transfer
  services, the agent's control commands, handshake and platform decisions,
  the relay's handshake and session registry, the management API's model
  (host registry, hosts file, login answers, logs) and its reading of the
  agent's JSON answers, and the desktop client's decisions.
- `tests/` — tests run against the compiled library.
- `app/` — the server agent and the relay server as programs: sockets, files,
  processes and the X server, around the library. The management API's HTTP
  server and the desktop client's window are not among them.
