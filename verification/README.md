# generic-api-client

The websocket layer of a generic API client: connections that are made anew whenever they break.

`src/` is the library, written in Verus. It holds no socket. It is told what happened on a
connection and answers what to do, and every answer is verified against its contract.

What std, http and tungstenite do is taken on trust, as the comments in `config` and `handshake`
state it: of `Duration::from_millis`, `is_zero`, `saturating_sub` and `MAX`, of
`HeaderName::from_bytes`, `HeaderValue::from_str` and `HeaderMap::try_insert`, and of
`IntoClientRequest::into_client_request`. The bodies of `longest_duration`, `try_insert` and
`into_client_request` make such a call and are not verified.

- `connection`: the state of a connection, what to do about what happens on it
- `reconnect`: the course of a reconnection, from the request to the closing of the old connection
- `duplicates`: which messages come twice while two connections overlap
- `handshake`: the request that opens a connection
- `attempt`: what is remembered of a connection for the logs, without credentials
- `message`, `config`, `handler`: the messages, the settings, and the trait that users implement
- `text`: decimal numbers, searching and cutting text
- `laws`: what holds of a connection across its operations

`app/` holds the sockets and the tasks, on tokio and tungstenite. `tests/` runs the library.
