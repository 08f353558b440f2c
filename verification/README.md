# alyson

The verified core of a terminal TCP inspector: a server and several clients
exchange chat messages over length-prefixed frames while a terminal
dashboard shows who is connected and what they said.

- `src/` is the library, checked by Verus: the frame format
  (`network::framing`), the handshake and routing rules of the server
  (`network::server_side`), what a client does with commands and server
  events (`network::client_side`), the registries (`network`), the shared
  values (`types`, `client`, `error`), text rules (`text`), and the state
  machine and layout rules of the interface (`ui`).
- `app/` is the program around it: sockets and tasks on the async runtime,
  the binary codec for the wire forms of the values, and the drawing of the
  terminal.
- `tests/` runs the library on concrete values.
