# server_kit

A small network server kit: HTTP and SMTP protocol engines, request routing with filters,
and the bookkeeping of an asynchronous runtime, as a library verified with Verus.

The library computes on plain values. It decides what to send, what to read and whom to
wake; sockets, files, threads and futures belong to the program around it.

- `src/text.rs`, `number.rs`, `encoding.rs`, `json.rs`, `query.rs`: texts, numbers, letter
  case and UTF-8, JSON values and query strings.
- `src/table.rs`, `fifo.rs`, `routing.rs`: maps in order of insertion, queues, and finding
  the handlers and filters of a request.
- `src/applications/`: HTTP messages, responses and connections, for the asynchronous
  server (`async_web`) and for the one with a thread for each connection (`web`); mail
  sessions and connections (`async_mail`, `mail`).
- `src/runtime/`, `src/server.rs`: workers, wakers, files, connections, the handshake with
  which they go over to TLS, and the asynchronous server; `src/async_runtime.rs` names its
  parts in one place.
- `src/blocking/`, `src/frameworks/`: the server with a thread for each connection, and
  servers that are set up step by step.
- `src/tls.rs`: what the library knows of `rustls`.

`app/` is a program built on the library: an HTTPS server for the files under `./examples`.
