# walle_core

A verified core for OneBot v12 bots and applications.

`src/` is checked by Verus. It holds:

- `value`, `value_eq`, `convert`: the dynamic `Value` and `ValueMap`
  (a map with string keys, modelled as a `Map`), conversions into and out
  of typed values, and equality by model;
- `segment`, `segments_mut`: message segments, their typed forms,
  alternative texts, and borrowed or mutable views of one segment or of a
  whole message;
- `structs`: the plain structures of the protocol and their map forms;
- `resp`, `resp_error`, `error`: action responses and errors;
- `bot_map`, `assoc`: the registry of connections and the bots they
  serve, with its consistency invariant and the laws of its operations;
- `onebot`, `conn`, `gate`, `obc`, `echo`, `flow`: the life cycle of an
  instance, the application side of connections, request checks, query
  tokens, echo tags, and the order in which the two handlers work;
- `serve`: the implementation side's answers to decoded action requests
  over HTTP and websockets;
- `custom`: the implementation-side instance of the earlier interface
  (running and online flags, status, heartbeat, event broadcast);
- `naming`, `text`, `util`, `hub`, `v11`: small helpers and data.

`app/` holds what Verus does not see: serde encodings (JSON, MessagePack),
serde copies of the plain structures, the alternative text of whole
messages, and the tokio channels around the registry and the shutdown
signal.

`tests/` exercises the library on concrete values.
