# RustProxy

A TLS tunnel that exposes services behind NAT, in the manner of frp: a
server with public TCP, UDP, HTTP and HTTPS listeners and a web panel, and
clients that connect to it and relay to their local services.

## Layout

- `src/` is the library, verified with Verus. It holds the tunnel's frame
  codec and data messages, the proxy rule manager (SQLite storage through
  `rusqlite`, run-time state in memory), the checks and rules of the
  management API, login rate limiting, password hashing and checks, panel
  token signing and checking (`jsonwebtoken`, HS256), Host
  header and TLS SNI sniffing, PROXY protocol headers, the tables of the
  server (client sessions, listeners, domain routes, waiting user
  connections, UDP sessions) and of the client (assigned rules), the
  decision steps of the control loops and relays, the self-signed
  certificate (`rcgen`), and the certificate decisions and PEM text.
- `app/` is the program around it: `rustproxy server <config.toml>`,
  `rustproxy client <config.toml>` and `rustproxy hash-password <password>`.
  It owns the sockets, tasks, TLS, the HTTP server and JSON, and asks the
  library for every decision.
- `tests/` runs the library on concrete inputs.
