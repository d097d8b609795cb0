# lobby

A websocket lobby server. Clients name themselves, open rooms under their
online key, configure them, enter other clients' rooms and exchange messages
through the room owner. A resource manager keeps the shared room directory and
session table.

- `src/` is the verified library: client message decoding (`decode`, `util`),
  listings (`types`), the room directory and session table (`registry`,
  `resource_manager`) and the per-connection protocol machine (`session`),
  each stated against a model and proved with Verus.
- `app/` runs the server: HTTP upgrade, websocket I/O, channels and the loops
  that feed events to the library and carry out what it decides.
- `tests/` exercises the library on concrete values.
