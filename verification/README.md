# rsrpc

Ergonomic Rust-to-Rust remote procedure calls in which the trait is the
interface. A service is a trait; its expansion implements the trait for clients
and dispatches calls on servers, so that `client.method(args)` calls the method
on the other side. Methods that return a stream are streamed, and methods with a
route (`#[get("/users/{id}")]`) can also be called over HTTP.

- `src/` is the library: the frames and payloads on the wire, what clients and
  servers do with them, when a call is tried again, how routes are read, and the
  code that is generated for a trait. Verus proves its contracts and the laws
  that tie them together, such as that a request arrives as it was made, that an
  answer completes exactly the call it answers, that only a lost connection leads
  to another try, that values sent over HTTP arrive by name, and that client and
  server agree on the number of every method.
- `app/` is the asynchronous side: connections, channels, HTTP requests and token
  streams. It holds no rules of its own.
- `tests/` runs the library on concrete values.

A frame is a header of 15 bytes and a payload. The header holds the frame type
(one byte), the method (two), the request (eight) and the length of the payload
(four), least significant byte first.
