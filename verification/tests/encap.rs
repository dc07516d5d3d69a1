use oak_grpc_server::encap::{
    decode_grpc_response, encode_grpc_request, skip_field, Any, GrpcRequest, MalformedMessage,
    RECURSION_LIMIT,
};
use oak_grpc_server::wire::{decode_key, decode_varint, WireKind};

fn request(method_name: &str, req_msg: Vec<u8>, last: bool) -> GrpcRequest {
    GrpcRequest { method_name: method_name.to_string(), req_msg, last }
}

#[test]
fn encode_request_all_fields() {
    let bytes = encode_grpc_request(&request("ab", vec![1, 2, 3], true));
    assert_eq!(bytes, vec![0x0a, 2, b'a', b'b', 0x12, 3, 1, 2, 3, 0x18, 1]);
}

#[test]
fn encode_request_leaves_out_defaults() {
    assert_eq!(encode_grpc_request(&request("", vec![], false)), Vec::<u8>::new());
    assert_eq!(encode_grpc_request(&request("", vec![7], false)), vec![0x12, 1, 7]);
    assert_eq!(encode_grpc_request(&request("", vec![], true)), vec![0x18, 1]);
}

#[test]
fn encode_request_long_body_has_two_byte_length() {
    let body = vec![0xffu8; 300];
    let bytes = encode_grpc_request(&request("", body.clone(), false));
    assert_eq!(&bytes[..3], &[0x12, 0xac, 0x02]);
    assert_eq!(&bytes[3..], &body[..]);
}

#[test]
fn encode_request_utf8_method_name() {
    let bytes = encode_grpc_request(&request("/é", vec![], false));
    assert_eq!(bytes, vec![0x0a, 3, b'/', 0xc3, 0xa9]);
}

#[test]
fn decode_varint_reads_multi_byte_values() {
    let input = [0xac, 0x02, 0x55];
    let (value, rest) = decode_varint(&input).unwrap();
    assert_eq!(value, 300);
    assert_eq!(rest, &[0x55]);
    assert!(decode_varint(&[0x80, 0x80]).is_err());
    assert!(decode_varint(&[0xff; 11]).is_err());
}

#[test]
fn decode_key_splits_tag_and_wire_type() {
    let (tag, kind, rest) = decode_key(&[0x12, 0x00]).unwrap();
    assert_eq!(tag, 2);
    assert_eq!(kind, WireKind::LengthDelimited);
    assert_eq!(rest, &[0x00]);
    assert!(decode_key(&[0x02]).is_err()); // tag zero
    assert!(decode_key(&[0x0e]).is_err()); // wire type 6
}

#[test]
fn decode_empty_reply_is_default_response() {
    let response = decode_grpc_response(&[]).unwrap();
    assert!(response.rsp_msg.is_empty());
    assert!(response.status.is_none());
    assert!(!response.last);
}

#[test]
fn decode_reply_with_body_and_last() {
    let response = decode_grpc_response(&[0x0a, 3, 1, 2, 3, 0x18, 1]).unwrap();
    assert_eq!(response.rsp_msg, vec![1, 2, 3]);
    assert!(response.status.is_none());
    assert!(response.last);
}

#[test]
fn decode_reply_keeps_last_body() {
    let response = decode_grpc_response(&[0x0a, 1, 1, 0x0a, 1, 2]).unwrap();
    assert_eq!(response.rsp_msg, vec![2]);
}

#[test]
fn decode_reply_with_status_and_details() {
    // status { code: 5, message: "x", details: [{ type_url: "t", value: [9] }] }
    let bytes = [
        0x12, 13, 0x08, 0x05, 0x12, 0x01, b'x', 0x1a, 0x06, 0x0a, 0x01, b't', 0x12, 0x01, 9,
    ];
    let response = decode_grpc_response(&bytes).unwrap();
    let status = response.status.unwrap();
    assert_eq!(status.code, 5);
    assert_eq!(status.message, "x");
    assert_eq!(status.details.len(), 1);
    let Any { type_url, value } = &status.details[0];
    assert_eq!(type_url, "t");
    assert_eq!(value, &vec![9]);
}

#[test]
fn decode_reply_merges_repeated_status() {
    let bytes = [0x12, 2, 0x08, 0x05, 0x12, 3, 0x12, 1, b'y'];
    let status = decode_grpc_response(&bytes).unwrap().status.unwrap();
    assert_eq!(status.code, 5);
    assert_eq!(status.message, "y");
}

#[test]
fn decode_reply_status_code_truncates_to_32_bits() {
    // code = 2^32 + 7
    let bytes = [0x12, 6, 0x08, 0x87, 0x80, 0x80, 0x80, 0x10];
    let status = decode_grpc_response(&bytes).map(|r| r.status.unwrap().code);
    assert_eq!(status, Ok(7));
}

#[test]
fn decode_reply_skips_unknown_fields() {
    // tag 4 varint, tag 5 fixed32, tag 6 fixed64, tag 7 bytes, then the body
    let bytes = [
        0x20, 0x7f, 0x2d, 1, 2, 3, 4, 0x31, 1, 2, 3, 4, 5, 6, 7, 8, 0x3a, 2, 0, 0, 0x0a, 1, 9,
    ];
    assert_eq!(decode_grpc_response(&bytes).unwrap().rsp_msg, vec![9]);
}

#[test]
fn decode_reply_skips_groups() {
    // tag 4 start group, tag 1 varint inside, tag 4 end group, then the body
    let bytes = [0x23, 0x08, 0x01, 0x24, 0x0a, 1, 9];
    assert_eq!(decode_grpc_response(&bytes).unwrap().rsp_msg, vec![9]);
    // an end group for a different tag is malformed
    assert_eq!(decode_grpc_response(&[0x23, 0x2c]).unwrap_err(), MalformedMessage);
    // a lone end group is malformed
    assert_eq!(decode_grpc_response(&[0x24]).unwrap_err(), MalformedMessage);
}

fn nested_groups(depth: usize) -> Vec<u8> {
    let mut bytes = vec![0x23; depth];
    bytes.extend(vec![0x24; depth]);
    bytes
}

#[test]
fn decode_reply_limits_group_nesting() {
    assert!(decode_grpc_response(&nested_groups(RECURSION_LIMIT as usize)).is_ok());
    assert!(decode_grpc_response(&nested_groups(RECURSION_LIMIT as usize + 1)).is_err());
}

#[test]
fn decode_reply_rejects_malformed_input() {
    // body longer than the input
    assert!(decode_grpc_response(&[0x0a, 5, 1]).is_err());
    // body field with varint wire type
    assert!(decode_grpc_response(&[0x08, 1]).is_err());
    // `last` with length-delimited wire type
    assert!(decode_grpc_response(&[0x1a, 0]).is_err());
    // truncated key
    assert!(decode_grpc_response(&[0x80]).is_err());
    // status message that is not UTF-8
    assert!(decode_grpc_response(&[0x12, 3, 0x12, 1, 0xff]).is_err());
    // status field overrunning its own length
    assert!(decode_grpc_response(&[0x12, 1, 0x0a, 1, 9]).is_err());
    // unknown fixed32 field that is cut short
    assert!(decode_grpc_response(&[0x2d, 1, 2]).is_err());
}

#[test]
fn skip_field_agrees_with_prost_at_top_level() {
    let cases: Vec<(WireKind, prost::encoding::WireType, u32, Vec<u8>)> = vec![
        (WireKind::Varint, prost::encoding::WireType::Varint, 4, vec![0x96, 0x01, 7]),
        (WireKind::ThirtyTwoBit, prost::encoding::WireType::ThirtyTwoBit, 4, vec![1, 2, 3, 4, 5]),
        (WireKind::SixtyFourBit, prost::encoding::WireType::SixtyFourBit, 4, vec![1, 2, 3]),
        (WireKind::LengthDelimited, prost::encoding::WireType::LengthDelimited, 4, vec![2, 1, 1, 1]),
        (WireKind::StartGroup, prost::encoding::WireType::StartGroup, 4, vec![0x08, 1, 0x24, 9]),
        (WireKind::StartGroup, prost::encoding::WireType::StartGroup, 4, vec![0x08, 1, 0x2c]),
        (WireKind::EndGroup, prost::encoding::WireType::EndGroup, 4, vec![]),
        (WireKind::StartGroup, prost::encoding::WireType::StartGroup, 4, nested_groups(150)),
    ];
    for (kind, wire_type, tag, bytes) in cases {
        let ours = skip_field(kind, tag, &bytes, RECURSION_LIMIT);
        let mut buf: &[u8] = &bytes;
        let theirs = prost::encoding::skip_field(wire_type, tag, &mut buf, Default::default());
        match (ours, theirs) {
            (Ok(rest), Ok(())) => assert_eq!(rest, buf),
            (Err(_), Err(_)) => {}
            (ours, theirs) => panic!("disagreement on {:?}: {:?} vs {:?}", bytes, ours, theirs),
        }
    }
}

#[test]
fn encoded_request_reads_back_with_prost() {
    let bytes = encode_grpc_request(&request("/oak.Example/Hello", vec![0, 1, 2, 255], true));
    let mut buf: &[u8] = &bytes;
    let mut method_name = String::new();
    let mut req_msg = Vec::new();
    let mut last = false;
    while !buf.is_empty() {
        let (tag, wire_type) = prost::encoding::decode_key(&mut buf).unwrap();
        let ctx = prost::encoding::DecodeContext::default();
        match tag {
            1 => prost::encoding::string::merge(wire_type, &mut method_name, &mut buf, ctx).unwrap(),
            2 => prost::encoding::bytes::merge(wire_type, &mut req_msg, &mut buf, ctx).unwrap(),
            3 => prost::encoding::bool::merge(wire_type, &mut last, &mut buf, ctx).unwrap(),
            other => panic!("unexpected tag {}", other),
        }
    }
    assert_eq!(method_name, "/oak.Example/Hello");
    assert_eq!(req_msg, vec![0, 1, 2, 255]);
    assert!(last);
}

#[test]
fn response_written_with_prost_reads_back() {
    for (body, last) in [(vec![], false), (vec![5u8; 200], false), (vec![1, 2], true), (vec![], true)] {
        let mut bytes = Vec::new();
        if !body.is_empty() {
            prost::encoding::bytes::encode(1, &body, &mut bytes);
        }
        if last {
            prost::encoding::bool::encode(3, &last, &mut bytes);
        }
        let response = decode_grpc_response(&bytes).unwrap();
        assert_eq!(response.rsp_msg, body);
        assert!(response.status.is_none());
        assert_eq!(response.last, last);
    }
}

#[test]
fn response_with_status_written_with_prost_reads_back() {
    let mut any = Vec::new();
    prost::encoding::string::encode(1, &"type.googleapis.com/x".to_string(), &mut any);
    prost::encoding::bytes::encode(2, &vec![4, 5], &mut any);
    let mut status = Vec::new();
    prost::encoding::int32::encode(1, &-3, &mut status);
    prost::encoding::string::encode(2, &"failed".to_string(), &mut status);
    prost::encoding::bytes::encode(3, &any, &mut status);
    prost::encoding::bytes::encode(3, &Vec::new(), &mut status);
    let mut bytes = Vec::new();
    prost::encoding::bytes::encode(1, &vec![9, 9], &mut bytes);
    prost::encoding::bytes::encode(2, &status, &mut bytes);
    prost::encoding::bool::encode(3, &true, &mut bytes);

    let response = decode_grpc_response(&bytes).unwrap();
    assert_eq!(response.rsp_msg, vec![9, 9]);
    assert!(response.last);
    let status = response.status.unwrap();
    assert_eq!(status.code, -3);
    assert_eq!(status.message, "failed");
    assert_eq!(status.details.len(), 2);
    assert_eq!(status.details[0].type_url, "type.googleapis.com/x");
    assert_eq!(status.details[0].value, vec![4, 5]);
    assert_eq!(status.details[1].type_url, "");
    assert!(status.details[1].value.is_empty());
}
