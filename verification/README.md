# masque_proxy

A MASQUE proxy for UDP: a client opens a tunnel with an extended CONNECT request over
HTTP/3, and the proxy carries UDP payloads between the client and the target.

`src/` is the library, verified with Verus. It makes no system call.

- `buffers`: the byte buffers of the `bytes` crate, described by the bytes they hold.
- `protocol`: variable-length integers, capsules and HTTP datagrams.
- `session::request`, `session::response`: what is read of a request and written as an
  answer, in terms of the `http` crate.
- `session::percent`, `session::handshake`: from a request to the target of the tunnel.
- `session::setup`: the steps from a request to a running tunnel, and what the client is
  answered when one of them fails.
- `session::tunnel`: a running tunnel, as a state machine from events to actions.
- `session::tunnel_laws`: what holds of every run of a tunnel.

Each function states in its `ensures` what it returns, over spec functions on sequences.
The proof functions named `law_..` state what relates several functions.

`app/` is the program around the library: certificates, the QUIC endpoint, the sockets and
the tasks. `tests/` runs the library.
