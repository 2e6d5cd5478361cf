# proxy_ssh

A reverse tunnel. A server on a public host relays the connections of outside
users to a client behind NAT or a firewall. The client keeps one control
connection to the server, for heartbeats and announcements only, and dials out
once more for every session; the data of a session is never framed.

1. The client connects to the control port (7000), proves that it knows the
   shared secret and keeps sending heartbeats.
2. A user connects to the proxy port (7001).
3. The server announces the session: `NewConnection(session_id)`.
4. The client connects to its local service and to the data port (7002), and
   sends `DataConnect(session_id)` on the latter.
5. The server relays between the user and the data connection. A side that has
   nothing more to send may still receive. The library decides when a relay is
   over; that the bytes themselves come through unchanged rests on `app/` and on
   tokio's copying.

## Frames

    +--------+------------+---------+---------+
    | type   | session id | length  | payload |
    | 1 byte | 4 bytes    | 4 bytes | N bytes |
    +--------+------------+---------+---------+

Numbers are big-endian; a reader refuses payloads above 1 MiB. The payload of
`Auth` is the secret, that of `DataConnect` the session id as four bytes.

| Type          | Byte | Direction        |
|---------------|------|------------------|
| Ping          | 1    | client to server |
| Pong          | 2    | server to client |
| NewConnection | 3    | server to client |
| Close         | 5    | both             |
| Auth          | 6    | client to server |
| AuthOk        | 7    | server to client |
| DataConnect   | 8    | client to server |

## Layout

- `src/`: the library, verified with Verus.
  - `protocol`: frames and their bytes, and the theorems that reading gives back
    what was written.
  - `text`: payloads as text.
  - `heartbeat`: when a peer counts as silent.
  - `session`: the ids of sessions.
  - `relay`: when the relay of a session is over.
  - `server`: the server's shared state, and what every event on a control
    connection, a data connection or a user's connection does to it.
  - `client`: what every event does to a client.
  - `reconnect`: how long a client waits before it connects again.
  - `config`: defaults.
  - `laws`: theorems about server and client together.
- `app/`: the two programs around the library: sockets, timers and tasks.
- `tests/`: the library on concrete values.
