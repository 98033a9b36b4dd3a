# aistudio_proxy

A WebSocket proxy for AI Studio: browser clients connect over a WebSocket,
and HTTP requests made to the proxy are carried out by those clients.

- `src/` is the verified library:
  - `json`, `string_map`, `message`: the JSON payload model and the message
    protocol, with builders and decoders whose round trips are proved;
  - `status`: HTTP status codes;
  - `auth`, `headers`: token and API-key authentication, request headers;
  - `connection`: the connection pool, with round-robin balancing (proved
    fair) and the invariant that no user is kept without a connection;
  - `proxy`, `server`: the decisions of the endpoints — what is sent to a
    client, and what its answer becomes.
- `app/` is the server around it: axum routes, sockets, tasks, timeouts, and
  the serde form of messages.
- `tests/` exercises the library on concrete values.
