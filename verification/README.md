# lobby

The core of a small chat server, verified with Verus, and the server around it.

- `src/message.rs`: the messages of the protocol.
- `src/name_map.rs`: a map from names to values that keeps the names in order.
- `src/channel.rs`: a channel, and what each join, part and message in it sets off.
- `src/state.rs`: the users and channels of the server.
- `src/session.rs`: what a connection does with each message, before and after its
  user has a name.
- `src/websocket.rs`: messages of the protocol in WebSocket messages.
- `src/laws.rs`: what holds across several events.
- `app/`: sockets, tasks, locks and the wire format.

The library does no I/O. It is told what happened and says what to do, in order;
`app/` does it.
