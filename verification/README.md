# connectrpc

The protocol logic of ConnectRPC clients, verified with Verus: envelope framing,
compression, error codes and errors, deadlines, request headers and bodies, and
the reading of Connect, gRPC and gRPC-Web responses.

- `src/` is the library. Everything in it is verified; the calls into other
  crates stand behind small functions whose contracts are stated and not proved.
- `app/` is the code around it: sockets, tasks, timers, and the derives of serde.
- `tests/` runs the library.
