use oak_grpc_server::abi::Label;
use oak_grpc_server::node::{GrpcServerNode, IpAddress, ListenAddress, TlsIdentity};

#[test]
fn new_node_keeps_its_configuration() {
    let address = ListenAddress { ip: IpAddress::V4(127, 0, 0, 1), port: 8080 };
    let identity = TlsIdentity { cert_pem: b"cert".to_vec(), key_pem: b"key".to_vec() };
    let node = GrpcServerNode::new("grpc_server", address, identity);
    assert_eq!(node.node_name, "grpc_server");
    assert_eq!(node.address, address);
    assert_eq!(node.tls_identity.cert_pem, b"cert".to_vec());
    assert_eq!(node.tls_identity.key_pem, b"key".to_vec());
}

#[test]
fn public_trusted_label_has_no_tags() {
    let label = Label::public_trusted();
    assert!(label.secrecy_tags.is_empty());
    assert!(label.integrity_tags.is_empty());
}
