//! The gRPC server pseudo-Node of the Oak runtime, as verified logic.
//!
//! The pseudo-Node accepts unary gRPC calls from clients and forwards each one
//! to an Oak Node over a pair of temporary channels. Everything that decides
//! what to send, where to send it and how to interpret replies lives here; the
//! networking, the async runtime and the Oak runtime itself are driven from the
//! outside, which performs the requests these state machines make and hands
//! back what came of them.
//!
//! - [`abi`]: the values exchanged with the Oak runtime.
//! - [`wire`]: the protobuf wire format and prost's primitives for it.
//! - [`encap`]: the request and response messages and their encoding.
//! - [`host`]: the requests made of the runtime and their outcomes.
//! - [`channel_writer`]: receiving the channel that invocations go to.
//! - [`request_handler`]: forwarding one call and reading its reply.
//! - [`node`]: the pseudo-Node's configuration.

pub mod abi;
pub mod wire;
pub mod encap;
pub mod host;
pub mod channel_writer;
pub mod request_handler;
pub mod node;
