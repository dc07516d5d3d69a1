//! The gRPC server pseudo-Node: its configuration, and how it starts.

use vstd::prelude::*;
use crate::abi::Handle;
use crate::channel_writer::{ChannelWriterSetup, writer_setup_action};
use crate::host::RuntimeAction;

verus! {

/// An IP address: four octets, or eight 16-bit segments.
#[derive(Clone, Copy, Debug, PartialEq, Eq, Structural)]
pub enum IpAddress {
    V4(u8, u8, u8, u8),
    V6(u16, u16, u16, u16, u16, u16, u16, u16),
}

/// The address and port that the server listens for clients on.
#[derive(Clone, Copy, Debug, PartialEq, Eq, Structural)]
pub struct ListenAddress {
    pub ip: IpAddress,
    pub port: u16,
}

/// The server's TLS identity: its certificate chain and private key, both
/// PEM-encoded.
#[derive(Clone, Debug)]
pub struct TlsIdentity {
    pub cert_pem: Vec<u8>,
    pub key_pem: Vec<u8>,
}

/// A gRPC server pseudo-Node.
#[derive(Clone, Debug)]
pub struct GrpcServerNode {
    /// Pseudo-Node name.
    pub node_name: String,
    /// Server address to listen for client requests on.
    pub address: ListenAddress,
    /// The server's TLS key and certificates.
    pub tls_identity: TlsIdentity,
}

impl GrpcServerNode {
    /// Creates a new pseudo-Node, but does not start it.
    pub fn new(node_name: &str, address: ListenAddress, tls_identity: TlsIdentity) -> (node: GrpcServerNode)
        ensures
            node.node_name@ == node_name@,
            node.address == address,
            node.tls_identity.cert_pem@ == tls_identity.cert_pem@,
            node.tls_identity.key_pem@ == tls_identity.key_pem@,
    {
        GrpcServerNode { node_name: node_name.to_owned(), address, tls_identity }
    }

    /// Starts receiving, on the channel `handle`, the writer handle that
    /// invocations are forwarded to.
    pub fn get_channel_writer(handle: Handle) -> (r: (ChannelWriterSetup, RuntimeAction))
        ensures
            r.0 == (ChannelWriterSetup::WaitingForChannel { handle }),
            writer_setup_action(r.0) == Some(r.1@),
    {
        ChannelWriterSetup::start(handle)
    }
}

} // verus!
