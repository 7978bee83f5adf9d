# minidumper

The client that a process uses to talk to the monitor that writes its minidumps, as a library whose
behaviour is stated in contracts and proved with Verus.

- `src/` is the library. It decides; it touches no socket and reads no clock.
  - `wire` and `bytes`: the frames, byte by byte.
  - `response` and `stream`: how responses are read, off datagrams and off a byte stream.
  - `outgoing`: how frames are written, whatever the socket takes of them at a time.
  - `timeout`: how long a read may take.
  - `socket_name`: the names that sockets go by.
  - `client_io` and `client`: the connection and the requests on it. A request is an `Exchange` that
    says what to do next, as an `Action`, and is told what came of it, as an `Event`.
  - `laws`: what holds of the client however its requests turn out.
- `app/` puts the library on a socket.
- `tests/` runs the library, against a server in memory where one is needed.
