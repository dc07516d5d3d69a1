//! The messages that carry a gRPC call through Oak channels, and their
//! protobuf encoding.
//!
//! A request travels as the encoding of [`GrpcRequest`]; the reply comes back
//! as the encoding of [`GrpcResponse`], whose `status` is a `google.rpc.Status`
//! with `google.protobuf.Any` details. Writing follows proto3: a field holding
//! its default value is left out, fields go in tag order. Reading follows
//! protobuf's merge rules: a repeated scalar field keeps its last value, a
//! repeated message field merges, unknown fields are skipped, and nested
//! messages and groups may go at most one hundred levels deep.

use vstd::prelude::*;
use vstd::utf8::*;
use crate::wire::{
    WireKind, decode_key, decode_varint, merge_bytes, merge_string, merge_bool, merge_int32,
    encode_string, encode_bytes, encode_bool, parse_varint, parse_key, parse_delimited,
    bytes_field, string_field, varint_field, delimited_field_bytes,
    bool_field_bytes, lemma_parse_varint_shrinks, lemma_parse_key_shrinks,
    lemma_parse_delimited_shrinks, lemma_parse_key_bytes, lemma_parse_delimited_bytes,
    lemma_parse_varint_bytes, key_bytes, varint_bytes,
};

verus! {

/// How deeply nested messages and groups may be read: the recursion limit
/// that protobuf decoding starts from at the top-level message.
pub const RECURSION_LIMIT: u32 = 100;

/// A unary gRPC request, as handed to an Oak Node.
#[derive(Clone, Debug)]
pub struct GrpcRequest {
    pub method_name: String,
    pub req_msg: Vec<u8>,
    pub last: bool,
}

pub struct GrpcRequestView {
    pub method_name: Seq<char>,
    pub req_msg: Seq<u8>,
    pub last: bool,
}

impl View for GrpcRequest {
    type V = GrpcRequestView;

    open spec fn view(&self) -> GrpcRequestView {
        GrpcRequestView { method_name: self.method_name@, req_msg: self.req_msg@, last: self.last }
    }
}

/// `google.protobuf.Any`: a serialized message and the URL of its type.
#[derive(Clone, Debug)]
pub struct Any {
    pub type_url: String,
    pub value: Vec<u8>,
}

pub struct AnyView {
    pub type_url: Seq<char>,
    pub value: Seq<u8>,
}

impl View for Any {
    type V = AnyView;

    open spec fn view(&self) -> AnyView {
        AnyView { type_url: self.type_url@, value: self.value@ }
    }
}

/// `google.rpc.Status`: a status code, a message and details.
#[derive(Clone, Debug)]
pub struct Status {
    pub code: i32,
    pub message: String,
    pub details: Vec<Any>,
}

pub struct StatusView {
    pub code: i32,
    pub message: Seq<char>,
    pub details: Seq<AnyView>,
}

impl View for Status {
    type V = StatusView;

    open spec fn view(&self) -> StatusView {
        StatusView {
            code: self.code,
            message: self.message@,
            details: self.details@.map_values(|a: Any| a@),
        }
    }
}

/// The reply of an Oak Node to a gRPC request.
#[derive(Clone, Debug)]
pub struct GrpcResponse {
    pub rsp_msg: Vec<u8>,
    pub status: Option<Status>,
    pub last: bool,
}

pub struct GrpcResponseView {
    pub rsp_msg: Seq<u8>,
    pub status: Option<StatusView>,
    pub last: bool,
}

impl View for GrpcResponse {
    type V = GrpcResponseView;

    open spec fn view(&self) -> GrpcResponseView {
        GrpcResponseView {
            rsp_msg: self.rsp_msg@,
            status: match self.status {
                Some(s) => Some(s@),
                None => None,
            },
            last: self.last,
        }
    }
}

/// The input could not be read as the expected protobuf message.
#[derive(Clone, Copy, Debug, PartialEq, Eq, Structural)]
pub struct MalformedMessage;

/// The encoding of a request: the method name as field 1, the request
/// message as field 2 and the `last` flag as field 3, each only where it
/// differs from its default.
pub open spec fn request_bytes(r: GrpcRequestView) -> Seq<u8> {
    (if r.method_name.len() > 0 {
        delimited_field_bytes(1, encode_utf8(r.method_name))
    } else {
        Seq::empty()
    }) + (if r.req_msg.len() > 0 {
        delimited_field_bytes(2, r.req_msg)
    } else {
        Seq::empty()
    }) + (if r.last {
        bool_field_bytes(3, true)
    } else {
        Seq::empty()
    })
}

/// Encodes a request as protobuf.
pub fn encode_grpc_request(request: &GrpcRequest) -> (bytes: Vec<u8>)
    ensures
        bytes@ == request_bytes(request@),
        encode_utf8(request.method_name@).len() <= u64::MAX ==> parse_grpc_request(bytes@) == Some(
            request@,
        ),
{
    let mut buf: Vec<u8> = Vec::new();
    if !request.method_name.as_str().is_empty() {
        encode_string(1, &request.method_name, &mut buf);
    }
    if request.req_msg.len() != 0 {
        encode_bytes(2, &request.req_msg, &mut buf);
    }
    if request.last {
        encode_bool(3, true, &mut buf);
    }
    assert(buf@ =~= request_bytes(request@));
    proof {
        if encode_utf8(request.method_name@).len() <= u64::MAX {
            law_request_round_trip(request@);
        }
    }
    buf
}

/// Skips the value of an unknown field whose key has been read, allowing
/// `budget` more levels of nesting: the bytes after it, if it is well-formed.
pub open spec fn skip_field_rest(kind: WireKind, tag: u32, s: Seq<u8>, budget: nat) -> Option<Seq<u8>>
    decreases s.len(), 1nat,
{
    if budget == 0 {
        None
    } else {
        match kind {
            WireKind::Varint => match parse_varint(s) {
                Some((_, rest)) => Some(rest),
                None => None,
            },
            WireKind::ThirtyTwoBit => if 4 <= s.len() {
                Some(s.skip(4))
            } else {
                None
            },
            WireKind::SixtyFourBit => if 8 <= s.len() {
                Some(s.skip(8))
            } else {
                None
            },
            WireKind::LengthDelimited => match parse_delimited(s) {
                Some((_, rest)) => Some(rest),
                None => None,
            },
            WireKind::StartGroup => skip_group_rest(tag, s, budget),
            WireKind::EndGroup => None,
        }
    }
}

/// Skips the fields of a group up to and including the end-group key that
/// matches `tag`.
pub open spec fn skip_group_rest(tag: u32, s: Seq<u8>, budget: nat) -> Option<Seq<u8>>
    decreases s.len(), 0nat,
{
    match parse_key(s) {
        Some((t, kind, r1)) => {
            if r1.len() < s.len() {
                if kind == WireKind::EndGroup {
                    if t == tag {
                        Some(r1)
                    } else {
                        None
                    }
                } else {
                    match skip_field_rest(kind, t, r1, (budget - 1) as nat) {
                        Some(r2) => if r2.len() < s.len() {
                            skip_group_rest(tag, r2, budget)
                        } else {
                            None
                        },
                        None => None,
                    }
                }
            } else {
                None
            }
        },
        None => None,
    }
}

/// An `Any` with both fields at their defaults.
pub open spec fn empty_any() -> AnyView {
    AnyView { type_url: Seq::empty(), value: Seq::empty() }
}

/// A `Status` with all fields at their defaults.
pub open spec fn empty_status() -> StatusView {
    StatusView { code: 0, message: Seq::empty(), details: Seq::empty() }
}

/// A `GrpcResponse` with all fields at their defaults.
pub open spec fn empty_response() -> GrpcResponseView {
    GrpcResponseView { rsp_msg: Seq::empty(), status: None, last: false }
}

/// Reads one field of an `Any` into `acc`, after its key.
pub open spec fn any_field(tag: u32, kind: WireKind, s: Seq<u8>, acc: AnyView) -> Option<(AnyView, Seq<u8>)> {
    if tag == 1 {
        match string_field(kind, s) {
            Some((v, rest)) => Some((AnyView { type_url: v, value: acc.value }, rest)),
            None => None,
        }
    } else if tag == 2 {
        match bytes_field(kind, s) {
            Some((v, rest)) => Some((AnyView { type_url: acc.type_url, value: v }, rest)),
            None => None,
        }
    } else {
        match skip_field_rest(kind, tag, s, (RECURSION_LIMIT - 2) as nat) {
            Some(rest) => Some((acc, rest)),
            None => None,
        }
    }
}

/// Reads all fields of an `Any` from `s`, merging them into `acc`.
pub open spec fn any_fields(s: Seq<u8>, acc: AnyView) -> Option<AnyView>
    decreases s.len(),
{
    if s.len() == 0 {
        Some(acc)
    } else {
        match parse_key(s) {
            Some((tag, kind, r1)) => match any_field(tag, kind, r1, acc) {
                Some((next, r2)) => if r2.len() < s.len() {
                    any_fields(r2, next)
                } else {
                    None
                },
                None => None,
            },
            None => None,
        }
    }
}

/// Reads one field of a `Status` into `acc`, after its key.
pub open spec fn status_field(tag: u32, kind: WireKind, s: Seq<u8>, acc: StatusView) -> Option<(StatusView, Seq<u8>)> {
    if tag == 1 {
        match varint_field(kind, s) {
            Some((v, rest)) => Some(
                (StatusView { code: v as i32, message: acc.message, details: acc.details }, rest),
            ),
            None => None,
        }
    } else if tag == 2 {
        match string_field(kind, s) {
            Some((v, rest)) => Some(
                (StatusView { code: acc.code, message: v, details: acc.details }, rest),
            ),
            None => None,
        }
    } else if tag == 3 {
        match bytes_field(kind, s) {
            Some((payload, rest)) => match any_fields(payload, empty_any()) {
                Some(a) => Some(
                    (
                        StatusView { code: acc.code, message: acc.message, details: acc.details.push(a) },
                        rest,
                    ),
                ),
                None => None,
            },
            None => None,
        }
    } else {
        match skip_field_rest(kind, tag, s, (RECURSION_LIMIT - 1) as nat) {
            Some(rest) => Some((acc, rest)),
            None => None,
        }
    }
}

/// Reads all fields of a `Status` from `s`, merging them into `acc`.
pub open spec fn status_fields(s: Seq<u8>, acc: StatusView) -> Option<StatusView>
    decreases s.len(),
{
    if s.len() == 0 {
        Some(acc)
    } else {
        match parse_key(s) {
            Some((tag, kind, r1)) => match status_field(tag, kind, r1, acc) {
                Some((next, r2)) => if r2.len() < s.len() {
                    status_fields(r2, next)
                } else {
                    None
                },
                None => None,
            },
            None => None,
        }
    }
}

/// The status a nested `Status` merges into: the one read so far, or the
/// default one.
pub open spec fn status_or_empty(status: Option<StatusView>) -> StatusView {
    match status {
        Some(s) => s,
        None => empty_status(),
    }
}

/// Reads one field of a `GrpcResponse` into `acc`, after its key.
pub open spec fn response_field(tag: u32, kind: WireKind, s: Seq<u8>, acc: GrpcResponseView) -> Option<(GrpcResponseView, Seq<u8>)> {
    if tag == 1 {
        match bytes_field(kind, s) {
            Some((v, rest)) => Some(
                (GrpcResponseView { rsp_msg: v, status: acc.status, last: acc.last }, rest),
            ),
            None => None,
        }
    } else if tag == 2 {
        match bytes_field(kind, s) {
            Some((payload, rest)) => match status_fields(payload, status_or_empty(acc.status)) {
                Some(st) => Some(
                    (GrpcResponseView { rsp_msg: acc.rsp_msg, status: Some(st), last: acc.last }, rest),
                ),
                None => None,
            },
            None => None,
        }
    } else if tag == 3 {
        match varint_field(kind, s) {
            Some((v, rest)) => Some(
                (GrpcResponseView { rsp_msg: acc.rsp_msg, status: acc.status, last: v != 0 }, rest),
            ),
            None => None,
        }
    } else {
        match skip_field_rest(kind, tag, s, RECURSION_LIMIT as nat) {
            Some(rest) => Some((acc, rest)),
            None => None,
        }
    }
}

/// Reads all fields of a `GrpcResponse` from `s`, merging them into `acc`.
pub open spec fn response_fields(s: Seq<u8>, acc: GrpcResponseView) -> Option<GrpcResponseView>
    decreases s.len(),
{
    if s.len() == 0 {
        Some(acc)
    } else {
        match parse_key(s) {
            Some((tag, kind, r1)) => match response_field(tag, kind, r1, acc) {
                Some((next, r2)) => if r2.len() < s.len() {
                    response_fields(r2, next)
                } else {
                    None
                },
                None => None,
            },
            None => None,
        }
    }
}

/// What a sequence of bytes decodes to as a `GrpcResponse`, if anything.
pub open spec fn parse_grpc_response(s: Seq<u8>) -> Option<GrpcResponseView> {
    response_fields(s, empty_response())
}

/// A string field as written: left out when empty.
pub open spec fn string_field_bytes(tag: u32, value: Seq<char>) -> Seq<u8> {
    if value.len() > 0 {
        delimited_field_bytes(tag, encode_utf8(value))
    } else {
        Seq::empty()
    }
}

/// A bytes field as written: left out when empty.
pub open spec fn bytes_field_bytes(tag: u32, value: Seq<u8>) -> Seq<u8> {
    if value.len() > 0 {
        delimited_field_bytes(tag, value)
    } else {
        Seq::empty()
    }
}

/// The encoding of an `Any`.
pub open spec fn any_bytes(a: AnyView) -> Seq<u8> {
    string_field_bytes(1, a.type_url) + bytes_field_bytes(2, a.value)
}

/// The details of a `Status` as written: one field 3 for each, in order.
pub open spec fn details_bytes(details: Seq<AnyView>) -> Seq<u8>
    decreases details.len(),
{
    if details.len() == 0 {
        Seq::empty()
    } else {
        delimited_field_bytes(3, any_bytes(details[0])) + details_bytes(details.drop_first())
    }
}

/// The encoding of a `Status`: the code (as a sign-extended varint) unless
/// zero, the message unless empty, then the details.
pub open spec fn status_bytes(st: StatusView) -> Seq<u8> {
    (if st.code != 0 {
        key_bytes(1, WireKind::Varint) + varint_bytes(st.code as u64)
    } else {
        Seq::empty()
    }) + string_field_bytes(2, st.message) + details_bytes(st.details)
}

/// The encoding of a `GrpcResponse`, as a Node writes it: the response
/// message unless empty, the status if there is one, `last` if set.
pub open spec fn response_bytes(r: GrpcResponseView) -> Seq<u8> {
    bytes_field_bytes(1, r.rsp_msg) + (match r.status {
        Some(st) => delimited_field_bytes(2, status_bytes(st)),
        None => Seq::empty(),
    }) + (if r.last {
        bool_field_bytes(3, true)
    } else {
        Seq::empty()
    })
}

/// Whether every length that the encoding of an `Any` writes fits in 64 bits.
pub open spec fn encodable_any(a: AnyView) -> bool {
    encode_utf8(a.type_url).len() <= u64::MAX && a.value.len() <= u64::MAX
        && any_bytes(a).len() <= u64::MAX
}

/// Whether every length that the encoding of a `Status` writes fits in 64 bits.
pub open spec fn encodable_status(st: StatusView) -> bool {
    &&& encode_utf8(st.message).len() <= u64::MAX
    &&& forall|i: int| 0 <= i < st.details.len() ==> encodable_any(#[trigger] st.details[i])
    &&& status_bytes(st).len() <= u64::MAX
}

/// Whether every length that the encoding of a `GrpcResponse` writes fits in
/// 64 bits.
pub open spec fn encodable_response(r: GrpcResponseView) -> bool {
    &&& r.rsp_msg.len() <= u64::MAX
    &&& (r.status matches Some(st) ==> encodable_status(st))
}

/// Reads a length-delimited field written with `tag` and `payload`, after
/// which `tail` follows: its key and payload, and the tail.
proof fn lemma_delimited_field(tag: u32, payload: Seq<u8>, tail: Seq<u8>)
    requires
        1 <= tag <= crate::wire::MAX_TAG,
        payload.len() <= u64::MAX,
    ensures
        ({
            let s = delimited_field_bytes(tag, payload) + tail;
            let r1 = varint_bytes(payload.len() as u64) + payload + tail;
            &&& parse_key(s) == Some((tag, WireKind::LengthDelimited, r1))
            &&& bytes_field(WireKind::LengthDelimited, r1) == Some((payload, tail))
            &&& r1.len() < s.len()
            &&& tail.len() < r1.len()
        }),
{
    let s = delimited_field_bytes(tag, payload) + tail;
    let r1 = varint_bytes(payload.len() as u64) + payload + tail;
    assert(s =~= key_bytes(tag, WireKind::LengthDelimited) + r1);
    lemma_parse_key_bytes(tag, WireKind::LengthDelimited, r1);
    lemma_parse_delimited_bytes(payload, tail);
    lemma_parse_key_shrinks(s);
    lemma_parse_delimited_shrinks(r1);
}

/// Reads a string field written with `tag` and `value`.
proof fn lemma_string_field(tag: u32, value: Seq<char>, tail: Seq<u8>)
    requires
        1 <= tag <= crate::wire::MAX_TAG,
        encode_utf8(value).len() <= u64::MAX,
    ensures
        ({
            let s = delimited_field_bytes(tag, encode_utf8(value)) + tail;
            let r1 = varint_bytes(encode_utf8(value).len() as u64) + encode_utf8(value) + tail;
            &&& parse_key(s) == Some((tag, WireKind::LengthDelimited, r1))
            &&& string_field(WireKind::LengthDelimited, r1) == Some((value, tail))
            &&& r1.len() < s.len()
            &&& tail.len() < r1.len()
        }),
{
    broadcast use encode_utf8_valid_utf8, encode_utf8_decode_utf8;

    lemma_delimited_field(tag, encode_utf8(value), tail);
}

/// An `Any` reads back as itself.
proof fn lemma_any_round_trip(a: AnyView)
    requires
        encodable_any(a),
    ensures
        any_fields(any_bytes(a), empty_any()) == Some(a),
{
    let value_part = bytes_field_bytes(2, a.value);
    let with_url = AnyView { type_url: a.type_url, value: Seq::empty() };
    assert(any_fields(Seq::empty(), a) == Some(a));
    if a.value.len() > 0 {
        lemma_delimited_field(2, a.value, Seq::empty());
        assert(delimited_field_bytes(2, a.value) + Seq::<u8>::empty() =~= value_part);
        assert(any_fields(value_part, with_url) == any_fields(Seq::empty(), a));
    } else {
        assert(a.value =~= Seq::<u8>::empty());
        assert(value_part.len() == 0);
    }
    assert(any_fields(value_part, with_url) == Some(a));
    if a.type_url.len() > 0 {
        lemma_string_field(1, a.type_url, value_part);
        assert(any_fields(any_bytes(a), empty_any()) == any_fields(value_part, with_url));
    } else {
        assert(a.type_url =~= Seq::<char>::empty());
        assert(any_bytes(a) =~= value_part);
    }
}

/// The details of a `Status` read back onto those already read.
proof fn lemma_details_round_trip(details: Seq<AnyView>, acc: StatusView)
    requires
        forall|i: int| 0 <= i < details.len() ==> encodable_any(#[trigger] details[i]),
        details_bytes(details).len() <= u64::MAX,
    ensures
        status_fields(details_bytes(details), acc) == Some(
            StatusView { code: acc.code, message: acc.message, details: acc.details + details },
        ),
    decreases details.len(),
{
    if details.len() == 0 {
        assert(acc.details + details =~= acc.details);
    } else {
        let first = details[0];
        let rest = details.drop_first();
        let tail = details_bytes(rest);
        assert(encodable_any(first));
        lemma_delimited_field(3, any_bytes(first), tail);
        lemma_any_round_trip(first);
        let next = StatusView { code: acc.code, message: acc.message, details: acc.details.push(first) };
        assert forall|i: int| 0 <= i < rest.len() implies encodable_any(#[trigger] rest[i]) by {
            assert(rest[i] == details[i + 1]);
        }
        lemma_details_round_trip(rest, next);
        assert(acc.details.push(first) + rest =~= acc.details + details);
    }
}

/// A `Status` reads back as itself.
proof fn lemma_status_round_trip(st: StatusView)
    requires
        encodable_status(st),
    ensures
        status_fields(status_bytes(st), empty_status()) == Some(st),
{
    broadcast use encode_utf8_valid_utf8, encode_utf8_decode_utf8;

    let code_part = if st.code != 0 {
        key_bytes(1, WireKind::Varint) + varint_bytes(st.code as u64)
    } else {
        Seq::empty()
    };
    let message_part = string_field_bytes(2, st.message);
    let details_part = details_bytes(st.details);
    let with_code = StatusView { code: st.code, message: Seq::empty(), details: Seq::empty() };
    let with_message = StatusView { code: st.code, message: st.message, details: Seq::empty() };
    assert(details_part.len() <= status_bytes(st).len());
    lemma_details_round_trip(st.details, with_message);
    assert(Seq::<AnyView>::empty() + st.details =~= st.details);
    assert(status_fields(details_part, with_message) == Some(st));
    if st.message.len() > 0 {
        lemma_string_field(2, st.message, details_part);
        assert(status_fields(message_part + details_part, with_code) == status_fields(details_part, with_message));
    } else {
        assert(st.message =~= Seq::<char>::empty());
        assert(message_part + details_part =~= details_part);
    }
    assert(status_fields(message_part + details_part, with_code) == Some(st));
    if st.code != 0 {
        let tail = message_part + details_part;
        let r1 = varint_bytes(st.code as u64) + tail;
        assert(status_bytes(st) =~= key_bytes(1, WireKind::Varint) + r1);
        lemma_parse_key_bytes(1, WireKind::Varint, r1);
        lemma_parse_varint_bytes(st.code as u64, tail);
        lemma_parse_key_shrinks(status_bytes(st));
        lemma_parse_varint_shrinks(r1);
        let c = st.code;
        assert((c as u64) as i32 == c) by (bit_vector);
        assert(status_fields(status_bytes(st), empty_status()) == status_fields(tail, with_code));
    } else {
        assert(status_bytes(st) =~= message_part + details_part);
        assert(with_code == empty_status());
    }
}

/// Reading the `last` field alone gives a response with `last` set.
proof fn lemma_last_field(acc: GrpcResponseView)
    ensures
        response_fields(bool_field_bytes(3, true), acc) == Some(
            GrpcResponseView { rsp_msg: acc.rsp_msg, status: acc.status, last: true },
        ),
{
    let s = bool_field_bytes(3, true);
    let r1 = varint_bytes(1);
    assert(s =~= key_bytes(3, WireKind::Varint) + r1);
    lemma_parse_key_bytes(3, WireKind::Varint, r1);
    assert(r1 =~= r1 + Seq::<u8>::empty());
    lemma_parse_varint_bytes(1, Seq::empty());
    lemma_parse_varint_shrinks(s);
    assert(response_fields(Seq::<u8>::empty(), GrpcResponseView { rsp_msg: acc.rsp_msg, status: acc.status, last: true })
        == Some(GrpcResponseView { rsp_msg: acc.rsp_msg, status: acc.status, last: true }));
}

/// A response reads back as itself: what a Node writes is what the
/// pseudo-Node reads, status and all.
pub proof fn law_response_round_trip(r: GrpcResponseView)
    requires
        encodable_response(r),
    ensures
        parse_grpc_response(response_bytes(r)) == Some(r),
{
    let body_part = bytes_field_bytes(1, r.rsp_msg);
    let status_part = match r.status {
        Some(st) => delimited_field_bytes(2, status_bytes(st)),
        None => Seq::empty(),
    };
    let last_part = if r.last {
        bool_field_bytes(3, true)
    } else {
        Seq::<u8>::empty()
    };
    let with_status = GrpcResponseView { rsp_msg: r.rsp_msg, status: r.status, last: false };
    let with_body = GrpcResponseView { rsp_msg: r.rsp_msg, status: None, last: false };
    // The `last` field.
    if r.last {
        lemma_last_field(with_status);
    } else {
        assert(last_part.len() == 0);
    }
    assert(response_fields(last_part, with_status) == Some(r));
    // The status field.
    match r.status {
        Some(st) => {
            lemma_delimited_field(2, status_bytes(st), last_part);
            lemma_status_round_trip(st);
            assert(status_part + last_part =~= delimited_field_bytes(2, status_bytes(st)) + last_part);
            assert(response_fields(status_part + last_part, with_body) == response_fields(last_part, with_status));
        },
        None => {
            assert(status_part + last_part =~= last_part);
            assert(with_status == with_body);
        },
    }
    assert(response_fields(status_part + last_part, with_body) == Some(r));
    // The body field.
    if r.rsp_msg.len() > 0 {
        lemma_delimited_field(1, r.rsp_msg, status_part + last_part);
        assert(response_bytes(r) =~= delimited_field_bytes(1, r.rsp_msg) + (status_part + last_part));
        assert(response_fields(response_bytes(r), empty_response()) == response_fields(status_part + last_part, with_body));
    } else {
        assert(r.rsp_msg =~= Seq::<u8>::empty());
        assert(response_bytes(r) =~= status_part + last_part);
        assert(with_body == empty_response());
    }
}

/// A `GrpcRequest` with all fields at their defaults.
pub open spec fn empty_request() -> GrpcRequestView {
    GrpcRequestView { method_name: Seq::empty(), req_msg: Seq::empty(), last: false }
}

/// Reads one field of a `GrpcRequest` into `acc`, after its key.
pub open spec fn request_field(tag: u32, kind: WireKind, s: Seq<u8>, acc: GrpcRequestView) -> Option<(GrpcRequestView, Seq<u8>)> {
    if tag == 1 {
        match string_field(kind, s) {
            Some((v, rest)) => Some(
                (GrpcRequestView { method_name: v, req_msg: acc.req_msg, last: acc.last }, rest),
            ),
            None => None,
        }
    } else if tag == 2 {
        match bytes_field(kind, s) {
            Some((v, rest)) => Some(
                (GrpcRequestView { method_name: acc.method_name, req_msg: v, last: acc.last }, rest),
            ),
            None => None,
        }
    } else if tag == 3 {
        match varint_field(kind, s) {
            Some((v, rest)) => Some(
                (GrpcRequestView { method_name: acc.method_name, req_msg: acc.req_msg, last: v != 0 }, rest),
            ),
            None => None,
        }
    } else {
        match skip_field_rest(kind, tag, s, RECURSION_LIMIT as nat) {
            Some(rest) => Some((acc, rest)),
            None => None,
        }
    }
}

/// Reads all fields of a `GrpcRequest` from `s`, merging them into `acc`.
pub open spec fn request_fields(s: Seq<u8>, acc: GrpcRequestView) -> Option<GrpcRequestView>
    decreases s.len(),
{
    if s.len() == 0 {
        Some(acc)
    } else {
        match parse_key(s) {
            Some((tag, kind, r1)) => match request_field(tag, kind, r1, acc) {
                Some((next, r2)) => if r2.len() < s.len() {
                    request_fields(r2, next)
                } else {
                    None
                },
                None => None,
            },
            None => None,
        }
    }
}

/// What a sequence of bytes decodes to as a `GrpcRequest`, if anything: what
/// the Node reads from the request channel.
pub open spec fn parse_grpc_request(s: Seq<u8>) -> Option<GrpcRequestView> {
    request_fields(s, empty_request())
}

/// Reading the `last` field alone gives a request with `last` set.
proof fn lemma_request_last_field(acc: GrpcRequestView)
    ensures
        request_fields(bool_field_bytes(3, true), acc) == Some(
            GrpcRequestView { method_name: acc.method_name, req_msg: acc.req_msg, last: true },
        ),
{
    let s = bool_field_bytes(3, true);
    let r1 = varint_bytes(1);
    assert(s =~= key_bytes(3, WireKind::Varint) + r1);
    lemma_parse_key_bytes(3, WireKind::Varint, r1);
    assert(r1 =~= r1 + Seq::<u8>::empty());
    lemma_parse_varint_bytes(1, Seq::empty());
    lemma_parse_varint_shrinks(s);
    assert(request_fields(
        Seq::<u8>::empty(),
        GrpcRequestView { method_name: acc.method_name, req_msg: acc.req_msg, last: true },
    ) == Some(GrpcRequestView { method_name: acc.method_name, req_msg: acc.req_msg, last: true }));
}

/// A request reads back as itself: the Node gets the method name, the
/// request message and the `last` flag that were encoded, each whatever the
/// others are.
pub proof fn law_request_round_trip(r: GrpcRequestView)
    requires
        encode_utf8(r.method_name).len() <= u64::MAX,
        r.req_msg.len() <= u64::MAX,
    ensures
        parse_grpc_request(request_bytes(r)) == Some(r),
{
    broadcast use encode_utf8_valid_utf8, encode_utf8_decode_utf8;

    let name_part = if r.method_name.len() > 0 {
        delimited_field_bytes(1, encode_utf8(r.method_name))
    } else {
        Seq::empty()
    };
    let body_part = if r.req_msg.len() > 0 {
        delimited_field_bytes(2, r.req_msg)
    } else {
        Seq::empty()
    };
    let last_part = if r.last {
        bool_field_bytes(3, true)
    } else {
        Seq::<u8>::empty()
    };
    assert(request_bytes(r) == name_part + body_part + last_part);
    let with_body = GrpcRequestView { method_name: r.method_name, req_msg: r.req_msg, last: false };
    let with_name = GrpcRequestView { method_name: r.method_name, req_msg: Seq::empty(), last: false };
    if r.last {
        lemma_request_last_field(with_body);
    } else {
        assert(last_part.len() == 0);
    }
    assert(request_fields(last_part, with_body) == Some(r));
    if r.req_msg.len() > 0 {
        lemma_delimited_field(2, r.req_msg, last_part);
        assert(body_part + last_part =~= delimited_field_bytes(2, r.req_msg) + last_part);
        assert(request_fields(body_part + last_part, with_name) == request_fields(last_part, with_body));
    } else {
        assert(r.req_msg =~= Seq::<u8>::empty());
        assert(body_part + last_part =~= last_part);
        assert(with_name == with_body);
    }
    assert(request_fields(body_part + last_part, with_name) == Some(r));
    if r.method_name.len() > 0 {
        lemma_string_field(1, r.method_name, body_part + last_part);
        assert(request_bytes(r) =~= delimited_field_bytes(1, encode_utf8(r.method_name)) + (body_part + last_part));
        assert(request_fields(request_bytes(r), empty_request()) == request_fields(body_part + last_part, with_name));
    } else {
        assert(r.method_name =~= Seq::<char>::empty());
        assert(request_bytes(r) =~= body_part + last_part);
        assert(with_name == empty_request());
    }
}

/// Skipping an unknown varint field consumes exactly the varint.
pub proof fn law_skip_varint(tag: u32, v: u64, tail: Seq<u8>, budget: nat)
    requires
        budget > 0,
    ensures
        skip_field_rest(WireKind::Varint, tag, varint_bytes(v) + tail, budget) == Some(tail),
{
    lemma_parse_varint_bytes(v, tail);
}

/// Skipping an unknown fixed-width field consumes exactly its four or eight
/// bytes.
pub proof fn law_skip_fixed(tag: u32, value: Seq<u8>, tail: Seq<u8>, budget: nat)
    requires
        budget > 0,
    ensures
        value.len() == 4 ==> skip_field_rest(WireKind::ThirtyTwoBit, tag, value + tail, budget) == Some(tail),
        value.len() == 8 ==> skip_field_rest(WireKind::SixtyFourBit, tag, value + tail, budget) == Some(tail),
{
    assert((value + tail).skip(value.len() as int) =~= tail);
}

/// Skipping an unknown length-delimited field consumes exactly its length
/// prefix and its payload, however long the payload is.
pub proof fn law_skip_length_delimited(tag: u32, payload: Seq<u8>, tail: Seq<u8>, budget: nat)
    requires
        budget > 0,
        payload.len() <= u64::MAX,
    ensures
        skip_field_rest(
            WireKind::LengthDelimited,
            tag,
            varint_bytes(payload.len() as u64) + payload + tail,
            budget,
        ) == Some(tail),
{
    lemma_parse_delimited_bytes(payload, tail);
}

/// Skipping an empty group consumes exactly its matching end-group key.
pub proof fn law_skip_empty_group(tag: u32, tail: Seq<u8>, budget: nat)
    requires
        budget > 0,
        1 <= tag <= crate::wire::MAX_TAG,
    ensures
        skip_field_rest(WireKind::StartGroup, tag, key_bytes(tag, WireKind::EndGroup) + tail, budget)
            == Some(tail),
{
    let s = key_bytes(tag, WireKind::EndGroup) + tail;
    lemma_parse_key_bytes(tag, WireKind::EndGroup, tail);
    lemma_parse_key_shrinks(s);
}

/// Skipping a group that holds a varint field consumes the field and the
/// matching end-group key.
pub proof fn law_skip_group_with_varint(tag: u32, inner: u32, v: u64, tail: Seq<u8>, budget: nat)
    requires
        budget > 1,
        1 <= tag <= crate::wire::MAX_TAG,
        1 <= inner <= crate::wire::MAX_TAG,
    ensures
        skip_field_rest(
            WireKind::StartGroup,
            tag,
            key_bytes(inner, WireKind::Varint) + varint_bytes(v) + key_bytes(tag, WireKind::EndGroup) + tail,
            budget,
        ) == Some(tail),
{
    let end = key_bytes(tag, WireKind::EndGroup) + tail;
    let r1 = varint_bytes(v) + end;
    let s = key_bytes(inner, WireKind::Varint) + r1;
    assert(key_bytes(inner, WireKind::Varint) + varint_bytes(v) + key_bytes(tag, WireKind::EndGroup)
        + tail =~= s);
    lemma_parse_key_bytes(inner, WireKind::Varint, r1);
    lemma_parse_key_shrinks(s);
    lemma_parse_varint_bytes(v, end);
    lemma_parse_varint_shrinks(r1);
    law_skip_empty_group(tag, tail, budget);
    lemma_parse_key_bytes(tag, WireKind::EndGroup, tail);
    assert(skip_group_rest(tag, end, budget) == Some(tail));
    assert(skip_field_rest(WireKind::Varint, inner, r1, (budget - 1) as nat) == Some(end));
    assert(skip_group_rest(tag, s, budget) == skip_group_rest(tag, end, budget));
}

/// With no nesting budget left, nothing can be skipped.
pub proof fn law_skip_needs_budget(kind: WireKind, tag: u32, s: Seq<u8>)
    ensures
        skip_field_rest(kind, tag, s, 0) is None,
{
}

/// A response whose unknown length-delimited field comes first still yields
/// the body that follows, whatever the unknown field's length.
pub proof fn law_unknown_field_before_body(tag: u32, unknown: Seq<u8>, rsp_msg: Seq<u8>)
    requires
        4 <= tag <= crate::wire::MAX_TAG,
        unknown.len() <= u64::MAX,
        0 < rsp_msg.len() <= u64::MAX,
    ensures
        parse_grpc_response(delimited_field_bytes(tag, unknown) + delimited_field_bytes(1, rsp_msg))
            == Some(GrpcResponseView { rsp_msg, status: None, last: false }),
{
    let tail = delimited_field_bytes(1, rsp_msg);
    let s = delimited_field_bytes(tag, unknown) + tail;
    let r1 = varint_bytes(unknown.len() as u64) + unknown + tail;
    assert(s =~= key_bytes(tag, WireKind::LengthDelimited) + r1);
    lemma_parse_key_bytes(tag, WireKind::LengthDelimited, r1);
    lemma_parse_key_shrinks(s);
    law_skip_length_delimited(tag, unknown, tail, RECURSION_LIMIT as nat);
    lemma_parse_delimited_shrinks(r1);
    lemma_parse_delimited_bytes(unknown, tail);
    assert(response_fields(s, empty_response()) == response_fields(tail, empty_response()));
    law_response_round_trip(GrpcResponseView { rsp_msg, status: None, last: false });
    assert(response_bytes(GrpcResponseView { rsp_msg, status: None, last: false }) =~= tail);
}

/// Reads a length-delimited value after its key: the payload and the bytes
/// after it.
pub fn read_delimited<'a>(kind: WireKind, input: &'a [u8]) -> (r: Result<(&'a [u8], &'a [u8]), MalformedMessage>)
    ensures
        match bytes_field(kind, input@) {
            Some((payload, rest)) => r matches Ok((p, after)) && p@ == payload && after@ == rest,
            None => r is Err,
        },
{
    if kind != WireKind::LengthDelimited {
        return Err(MalformedMessage);
    }
    match decode_varint(input) {
        Ok((len, after)) => {
            if len <= after.len() as u64 {
                let n = len as usize;
                let (payload, rest) = after.split_at(n);
                assert(payload@ =~= after@.take(len as int));
                assert(rest@ =~= after@.skip(len as int));
                Ok((payload, rest))
            } else {
                Err(MalformedMessage)
            }
        },
        Err(_) => Err(MalformedMessage),
    }
}

/// Skips the value of an unknown field whose key has been read, allowing
/// `budget` more levels of nesting, and returns the bytes after it.
///
/// This follows `prost::encoding::skip_field`, whose recursion context can
/// only be made at the top level outside prost; nested messages need a
/// smaller budget, so the skipping is done here, from prost's varint and key
/// readers.
pub fn skip_field<'a>(kind: WireKind, tag: u32, input: &'a [u8], budget: u32) -> (r: Result<&'a [u8], MalformedMessage>)
    ensures
        match skip_field_rest(kind, tag, input@, budget as nat) {
            Some(rest) => r matches Ok(after) && after@ == rest,
            None => r is Err,
        },
        r matches Ok(after) ==> after@.len() < input@.len(),
    decreases input@.len(),
{
    if budget == 0 {
        return Err(MalformedMessage);
    }
    match kind {
        WireKind::Varint => match decode_varint(input) {
            Ok((_, after)) => {
                proof {
                    lemma_parse_varint_shrinks(input@);
                }
                Ok(after)
            },
            Err(_) => Err(MalformedMessage),
        },
        WireKind::ThirtyTwoBit => {
            if 4 <= input.len() {
                let (_, after) = input.split_at(4);
                assert(after@ =~= input@.skip(4));
                Ok(after)
            } else {
                Err(MalformedMessage)
            }
        },
        WireKind::SixtyFourBit => {
            if 8 <= input.len() {
                let (_, after) = input.split_at(8);
                assert(after@ =~= input@.skip(8));
                Ok(after)
            } else {
                Err(MalformedMessage)
            }
        },
        WireKind::LengthDelimited => {
            proof {
                lemma_parse_delimited_shrinks(input@);
            }
            match read_delimited(kind, input) {
                Ok((_, after)) => Ok(after),
                Err(e) => Err(e),
            }
        },
        WireKind::StartGroup => {
            let mut cur = input;
            loop
                invariant
                    0 < budget,
                    kind == WireKind::StartGroup,
                    cur@.len() <= input@.len(),
                    skip_field_rest(kind, tag, input@, budget as nat) == skip_group_rest(tag, cur@, budget as nat),
                decreases cur@.len(),
            {
                match decode_key(cur) {
                    Ok((t, k, r1)) => {
                        proof {
                            lemma_parse_key_shrinks(cur@);
                        }
                        if k == WireKind::EndGroup {
                            if t == tag {
                                return Ok(r1);
                            } else {
                                return Err(MalformedMessage);
                            }
                        }
                        match skip_field(k, t, r1, budget - 1) {
                            Ok(r2) => {
                                cur = r2;
                            },
                            Err(e) => {
                                return Err(e);
                            },
                        }
                    },
                    Err(_) => {
                        return Err(MalformedMessage);
                    },
                }
            }
        },
        WireKind::EndGroup => Err(MalformedMessage),
    }
}

/// Reads the fields of an `Any` from its payload.
pub fn decode_any(payload: &[u8]) -> (r: Result<Any, MalformedMessage>)
    ensures
        match any_fields(payload@, empty_any()) {
            Some(v) => r matches Ok(a) && a@ == v,
            None => r is Err,
        },
{
    let mut type_url = String::new();
    let mut value: Vec<u8> = Vec::new();
    let mut cur = payload;
    while cur.len() > 0
        invariant
            any_fields(payload@, empty_any()) == any_fields(
                cur@,
                AnyView { type_url: type_url@, value: value@ },
            ),
        decreases cur@.len(),
    {
        let (tag, kind, r1) = match decode_key(cur) {
            Ok(x) => x,
            Err(_) => {
                return Err(MalformedMessage);
            },
        };
        proof {
            lemma_parse_key_shrinks(cur@);
            lemma_parse_delimited_shrinks(r1@);
        }
        let r2 = if tag == 1 {
            match merge_string(kind, r1) {
                Ok((v, after)) => {
                    type_url = v;
                    after
                },
                Err(_) => {
                    return Err(MalformedMessage);
                },
            }
        } else if tag == 2 {
            match merge_bytes(kind, r1) {
                Ok((v, after)) => {
                    value = v;
                    after
                },
                Err(_) => {
                    return Err(MalformedMessage);
                },
            }
        } else {
            match skip_field(kind, tag, r1, RECURSION_LIMIT - 2) {
                Ok(after) => after,
                Err(e) => {
                    return Err(e);
                },
            }
        };
        cur = r2;
    }
    Ok(Any { type_url, value })
}

/// Reads the fields of a `Status` from its payload, merging them into
/// `status`.
pub fn decode_status(payload: &[u8], status: Status) -> (r: Result<Status, MalformedMessage>)
    ensures
        match status_fields(payload@, status@) {
            Some(v) => r matches Ok(s) && s@ == v,
            None => r is Err,
        },
{
    let Status { code: mut code, message: mut message, details: mut details } = status;
    let mut cur = payload;
    while cur.len() > 0
        invariant
            status_fields(payload@, status@) == status_fields(
                cur@,
                Status { code, message, details }@,
            ),
        decreases cur@.len(),
    {
        let (tag, kind, r1) = match decode_key(cur) {
            Ok(x) => x,
            Err(_) => {
                return Err(MalformedMessage);
            },
        };
        proof {
            lemma_parse_key_shrinks(cur@);
            lemma_parse_delimited_shrinks(r1@);
            lemma_parse_varint_shrinks(r1@);
        }
        let r2 = if tag == 1 {
            match merge_int32(kind, r1) {
                Ok((v, after)) => {
                    code = v;
                    after
                },
                Err(_) => {
                    return Err(MalformedMessage);
                },
            }
        } else if tag == 2 {
            match merge_string(kind, r1) {
                Ok((v, after)) => {
                    message = v;
                    after
                },
                Err(_) => {
                    return Err(MalformedMessage);
                },
            }
        } else if tag == 3 {
            let (p, after) = match read_delimited(kind, r1) {
                Ok(x) => x,
                Err(e) => {
                    return Err(e);
                },
            };
            let any = match decode_any(p) {
                Ok(a) => a,
                Err(e) => {
                    return Err(e);
                },
            };
            let ghost before = details@;
            details.push(any);
            assert(details@.map_values(|a: Any| a@) =~= before.map_values(|a: Any| a@).push(any@));
            after
        } else {
            match skip_field(kind, tag, r1, RECURSION_LIMIT - 1) {
                Ok(after) => after,
                Err(e) => {
                    return Err(e);
                },
            }
        };
        cur = r2;
    }
    Ok(Status { code, message, details })
}

/// Decodes a `GrpcResponse` from protobuf.
pub fn decode_grpc_response(bytes: &[u8]) -> (r: Result<GrpcResponse, MalformedMessage>)
    ensures
        match parse_grpc_response(bytes@) {
            Some(v) => r matches Ok(m) && m@ == v,
            None => r is Err,
        },
{
    let mut rsp_msg: Vec<u8> = Vec::new();
    let mut status: Option<Status> = None;
    let mut last = false;
    let mut cur = bytes;
    assert(GrpcResponse { rsp_msg, status, last }@ == empty_response());
    while cur.len() > 0
        invariant
            parse_grpc_response(bytes@) == response_fields(
                cur@,
                GrpcResponse { rsp_msg, status, last }@,
            ),
        decreases cur@.len(),
    {
        let (tag, kind, r1) = match decode_key(cur) {
            Ok(x) => x,
            Err(_) => {
                return Err(MalformedMessage);
            },
        };
        proof {
            lemma_parse_key_shrinks(cur@);
            lemma_parse_delimited_shrinks(r1@);
            lemma_parse_varint_shrinks(r1@);
        }
        let r2 = if tag == 1 {
            match merge_bytes(kind, r1) {
                Ok((v, after)) => {
                    rsp_msg = v;
                    after
                },
                Err(_) => {
                    return Err(MalformedMessage);
                },
            }
        } else if tag == 2 {
            let (p, after) = match read_delimited(kind, r1) {
                Ok(x) => x,
                Err(e) => {
                    return Err(e);
                },
            };
            let base = match status {
                Some(s) => s,
                None => Status { code: 0, message: String::new(), details: Vec::new() },
            };
            assert(base@.details =~= status_or_empty(GrpcResponse { rsp_msg, status, last }@.status).details);
            let merged = match decode_status(p, base) {
                Ok(s) => s,
                Err(e) => {
                    return Err(e);
                },
            };
            status = Some(merged);
            after
        } else if tag == 3 {
            match merge_bool(kind, r1) {
                Ok((v, after)) => {
                    last = v;
                    after
                },
                Err(_) => {
                    return Err(MalformedMessage);
                },
            }
        } else {
            match skip_field(kind, tag, r1, RECURSION_LIMIT) {
                Ok(after) => after,
                Err(e) => {
                    return Err(e);
                },
            }
        };
        cur = r2;
    }
    Ok(GrpcResponse { rsp_msg, status, last })
}

} // verus!
