# snowland

The verified core of the Snowland desktop renderer and its control panel.

- `src/` is the library, verified with Verus: fixed-size value serialization and its
  receive buffer, the IPC receive buffer and message framing, the host's decisions on
  incoming messages, module placement on displays, display bookkeeping, the countdown
  text, the startup share protocol, the control panel's API events and dispatcher
  decisions, the values of the user interface's method channels and their replies, the
  plan behind generated method channel handlers, and the decisions of
  the Unix socket, Windows pipe, X11 and Win32 window code.
- `app/` is the input and output around it: sockets and the mio poll, pipes, processes,
  threads, logging, and the serde/bincode form of the IPC messages.
- `tests/` exercises the library on concrete values.
