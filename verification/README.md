# oak_grpc_server

The gRPC server pseudo-Node of the Oak runtime, written in Verus.

A client's unary gRPC call is forwarded to an Oak Node: the pseudo-Node
creates a request channel and a response channel, writes the protobuf-encoded
request into the first, sends the Node an invocation carrying the request
reader and the response writer, then waits for, reads and decodes the reply.

- `src/` is the verified library: the protobuf encoding of the request, a
  verified decoder for the response, and the two state machines (receiving the
  invocation channel at start-up, and handling one call), with their laws.
  prost's encoding primitives are reached through trusted wrappers in
  `src/wire.rs`.
- `app/` drives the state machines against an Oak runtime and serves gRPC
  over TLS with tonic on a tokio runtime.
- `tests/` exercises the library, including cross-checks against prost.
