# hyper-proxy

A small reverse proxy with a management API, for HTTP(S) and WS(S) backends. The logic is a library
that is verified with Verus; a thin program around it holds the server, the connections and the
environment.

## Layout

- `src/` the verified library
  - `balancer`, `backend`, `urls`: load-balancing modes, backends and their URLs
  - `pool`, `state`: pools of backends that are leased to requests, and the state of the proxy
  - `headers`, `proxy`, `websocket`, `response`: what is sent upstream, and what is answered
  - `api`, `config`: the management API and the configuration
  - `text`: operations on strings
  - `pool_laws`, `proxy_laws`, `api_laws`: what holds across several operations
  - `pool_history`, `state_history`: what holds over any history of operations
- `tests/` tests of the library
- `app/` the program: accepts connections, waits for backends, sends and receives

## Load balancing

- `leastconn` leases the available backend with the fewest active connections, and refuses a
  request where none is available.
- `queue` is round-robin over the available backends; a request waits where all are busy.

A backend may have a limit of connections, which is never exceeded.

## What is trusted

The library calls `http`, `url`, `uuid` and `tungstenite`, and one function of `str`, behind
small functions marked `#[verifier::external_body]`. The comment above each says what is claimed of
the call.
