# proto-service

Transport-agnostic RPC plumbing for protobuf services, with its logic proved
correct by Verus.

`src/` is the verified library:

- `status`: gRPC codes with their wire values, and `Status`.
- `keys`, `metadata`: the case-insensitive, ordered multimap of call metadata.
- `response`, `call`: unary responses and the `CallEnd` that closes every call,
  including turning a call's end into a typed response.
- `server`: request payload shapes, the rule that response headers come first,
  and the router of services by name.
- `client`: reading the head of a streaming response, what each later frame
  yields and when the stream ends, and when dropping a call handle cancels the
  call.
- `method_path`, `codegen`: method paths (`/pkg.Service/Method`), qualified
  service names, doc text, and method shapes.
- `pipe`: the pipe transport's packets, their conversions to and from the
  library's values, and the per-connection state machines of its server
  (`server_conn`) and client (`client_sessions`).
- `buffer`: the `bytes::Bytes` buffers that carry encoded messages.

`app/` holds what the verifier cannot take: futures, channels and tasks, the
type-erased `Service` trait, typed sinks and streams, the pipe transport's run
loops (which carry out the decisions of the state machines), request
extensions keyed by type, and `prost-build` code generation.
