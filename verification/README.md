# nanooctopus

The logic of a small embedded HTTP / WebSocket server, verified with Verus.

- `src/` is the library. Its functions are verified against their
  `requires` / `ensures` contracts, except three small trusted wrappers
  (`#[verifier::external_body]`) around calls that Verus cannot read: UTF-8
  decoding and collecting characters into a `String` (`src/text.rs`), and
  formatting a length with `heapless` (`src/handler.rs`). Their contracts are
  taken on trust and documented where they stand. The public proof functions
  state the laws that hold across calls: the stop-sequence finder reports a
  hit exactly when the bytes fed since the last hit end with the sequence;
  masking is an involution and may be done in pieces, from any offset, by
  either encoder; frame headers decode to what was encoded and re-encode to
  the bytes they were decoded from; the close handshake; splitting arenas and
  buffers. The buffers and arenas work over borrowed memory, and their
  contracts say what that memory holds once the parts they hand out are gone.
- `app/` is the asynchronous I/O around it: socket traits, the reading loops,
  the WebSocket connection and stream over real sockets, HTTP handlers on top
  of `edge-http`, tokio sockets and a callback-driven mock socket.
- `tests/` exercises the library on concrete values.
