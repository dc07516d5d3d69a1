//! Forwarding one unary gRPC call to the Oak Node and reading its reply.
//!
//! For each call the pseudo-Node creates two temporary channels, one for the
//! request and one for the response. It writes the encoded request into the
//! first, then sends the Node an invocation message that carries the reader
//! of the request channel and the writer of the response channel, in that
//! order. It then waits on the response channel, reads one message and
//! decodes it; the reply body is the response message inside it.

use vstd::prelude::*;
use vstd::utf8::encode_utf8;
use crate::abi::{
    ChannelReadStatus, Handle, Label, NodeMessage, NodeMessageView, OakStatus,
    public_trusted_label,
};
use crate::encap::{
    GrpcRequest, GrpcRequestView, decode_grpc_response, encode_grpc_request,
    parse_grpc_response, request_bytes, response_bytes, law_response_round_trip,
    empty_response, encodable_response, GrpcResponseView, parse_grpc_request,
    law_request_round_trip,
};
use crate::host::{ActionView, EventView, RuntimeAction, RuntimeEvent, answers};

verus! {

/// The gRPC status code for an internal error.
pub const GRPC_CODE_INTERNAL: i32 = 13;

/// Handles the unary gRPC calls for one method, forwarding them to the Oak
/// Node that listens on `writer`.
#[derive(Clone, Debug)]
pub struct GrpcRequestHandler {
    /// The channel that invocations are written to.
    pub writer: Handle,
    /// The gRPC method that calls are made to.
    pub method_name: String,
}

/// Where a unary call stands.
#[derive(Debug)]
pub enum CallPhase {
    /// Creating the channel that carries the request.
    CreatingRequestChannel,
    /// Creating the channel that carries the response.
    CreatingResponseChannel { request_writer: Handle, request_reader: Handle },
    /// Writing the encoded request into the request channel.
    WritingRequest {
        request_writer: Handle,
        request_reader: Handle,
        response_writer: Handle,
        response_reader: Handle,
    },
    /// Sending the invocation, with its two handles, to the Node.
    WritingInvocation { request_reader: Handle, response_writer: Handle, response_reader: Handle },
    /// Waiting until the response channel is readable.
    WaitingForResponse { response_reader: Handle },
    /// Reading the response message.
    ReadingResponse { response_reader: Handle },
    /// Finished, with the reply body or the error.
    Done { result: Result<Vec<u8>, OakStatus> },
}

/// The mathematical content of a [`CallPhase`].
pub enum CallPhaseView {
    CreatingRequestChannel,
    CreatingResponseChannel { request_writer: Handle, request_reader: Handle },
    WritingRequest {
        request_writer: Handle,
        request_reader: Handle,
        response_writer: Handle,
        response_reader: Handle,
    },
    WritingInvocation { request_reader: Handle, response_writer: Handle, response_reader: Handle },
    WaitingForResponse { response_reader: Handle },
    ReadingResponse { response_reader: Handle },
    Done { result: Result<Seq<u8>, OakStatus> },
}

impl View for CallPhase {
    type V = CallPhaseView;

    open spec fn view(&self) -> CallPhaseView {
        match self {
            CallPhase::CreatingRequestChannel => CallPhaseView::CreatingRequestChannel,
            CallPhase::CreatingResponseChannel { request_writer, request_reader } =>
                CallPhaseView::CreatingResponseChannel {
                request_writer: *request_writer,
                request_reader: *request_reader,
            },
            CallPhase::WritingRequest {
                request_writer,
                request_reader,
                response_writer,
                response_reader,
            } => CallPhaseView::WritingRequest {
                request_writer: *request_writer,
                request_reader: *request_reader,
                response_writer: *response_writer,
                response_reader: *response_reader,
            },
            CallPhase::WritingInvocation { request_reader, response_writer, response_reader } =>
                CallPhaseView::WritingInvocation {
                request_reader: *request_reader,
                response_writer: *response_writer,
                response_reader: *response_reader,
            },
            CallPhase::WaitingForResponse { response_reader } => CallPhaseView::WaitingForResponse {
                response_reader: *response_reader,
            },
            CallPhase::ReadingResponse { response_reader } => CallPhaseView::ReadingResponse {
                response_reader: *response_reader,
            },
            CallPhase::Done { result } => CallPhaseView::Done {
                result: match result {
                    Ok(body) => Ok(body@),
                    Err(e) => Err(*e),
                },
            },
        }
    }
}

/// One unary call in progress: the Node's invocation channel, the request
/// and where the call stands.
#[derive(Debug)]
pub struct UnaryCall {
    writer: Handle,
    request: GrpcRequest,
    phase: CallPhase,
}

/// The mathematical content of a [`UnaryCall`].
pub struct UnaryCallView {
    pub writer: Handle,
    pub request: GrpcRequestView,
    pub phase: CallPhaseView,
}

impl View for UnaryCall {
    type V = UnaryCallView;

    closed spec fn view(&self) -> UnaryCallView {
        UnaryCallView { writer: self.writer, request: self.request@, phase: self.phase@ }
    }
}

/// A gRPC error status: a code and a message for the client.
#[derive(Clone, Debug)]
pub struct RpcStatus {
    pub code: i32,
    pub message: String,
}

/// The request that a call with body `req_msg` forwards: the handler's
/// method, the body, and `last` set, since calls are unary.
pub open spec fn call_request(method_name: Seq<char>, req_msg: Seq<u8>) -> GrpcRequestView {
    GrpcRequestView { method_name, req_msg, last: true }
}

/// A call that has just started.
pub open spec fn call_start(writer: Handle, request: GrpcRequestView) -> UnaryCallView {
    UnaryCallView { writer, request, phase: CallPhaseView::CreatingRequestChannel }
}

/// The message that carries the encoded request.
pub open spec fn request_message(request: GrpcRequestView) -> NodeMessageView {
    NodeMessageView { data: request_bytes(request), handles: Seq::empty() }
}

/// The invocation message: no data, the reader of the request channel and
/// the writer of the response channel.
pub open spec fn invocation_message(request_reader: Handle, response_writer: Handle) -> NodeMessageView {
    NodeMessageView { data: Seq::empty(), handles: seq![request_reader, response_writer] }
}

/// What the call asks of the runtime next, if anything.
pub open spec fn call_action(call: UnaryCallView) -> Option<ActionView> {
    match call.phase {
        CallPhaseView::CreatingRequestChannel => Some(
            ActionView::ChannelCreate(public_trusted_label()),
        ),
        CallPhaseView::CreatingResponseChannel { .. } => Some(
            ActionView::ChannelCreate(public_trusted_label()),
        ),
        CallPhaseView::WritingRequest { request_writer, .. } => Some(
            ActionView::ChannelWrite(request_writer, request_message(call.request)),
        ),
        CallPhaseView::WritingInvocation { request_reader, response_writer, .. } => Some(
            ActionView::ChannelWrite(call.writer, invocation_message(request_reader, response_writer)),
        ),
        CallPhaseView::WaitingForResponse { response_reader } => Some(
            ActionView::WaitOnChannels(seq![response_reader]),
        ),
        CallPhaseView::ReadingResponse { response_reader } => Some(
            ActionView::ChannelRead(response_reader),
        ),
        CallPhaseView::Done { .. } => None,
    }
}

/// The reply body that a read from the response channel yields: the
/// response message inside the decoded reply. No message reads as an empty
/// reply; a reply that does not decode is an internal error.
pub open spec fn body_from_read(message: Option<NodeMessageView>) -> Result<Seq<u8>, OakStatus> {
    let data = match message {
        Some(m) => m.data,
        None => Seq::empty(),
    };
    match parse_grpc_response(data) {
        Some(response) => Ok(response.rsp_msg),
        None => Err(OakStatus::ErrInternal),
    }
}

/// The phase a call moves to on `event`. A runtime error ends the call with
/// that error; a response channel that is not ready to read ends it with an
/// internal error.
pub open spec fn phase_next(phase: CallPhaseView, event: EventView) -> CallPhaseView {
    match phase {
        CallPhaseView::CreatingRequestChannel => match event {
            EventView::Created(Ok((w, r))) => CallPhaseView::CreatingResponseChannel {
                request_writer: w,
                request_reader: r,
            },
            EventView::Created(Err(e)) => CallPhaseView::Done { result: Err(e) },
            _ => phase,
        },
        CallPhaseView::CreatingResponseChannel { request_writer, request_reader } => match event {
            EventView::Created(Ok((w, r))) => CallPhaseView::WritingRequest {
                request_writer,
                request_reader,
                response_writer: w,
                response_reader: r,
            },
            EventView::Created(Err(e)) => CallPhaseView::Done { result: Err(e) },
            _ => phase,
        },
        CallPhaseView::WritingRequest { request_reader, response_writer, response_reader, .. } =>
            match event {
            EventView::Written(Ok(())) => CallPhaseView::WritingInvocation {
                request_reader,
                response_writer,
                response_reader,
            },
            EventView::Written(Err(e)) => CallPhaseView::Done { result: Err(e) },
            _ => phase,
        },
        CallPhaseView::WritingInvocation { response_reader, .. } => match event {
            EventView::Written(Ok(())) => CallPhaseView::WaitingForResponse { response_reader },
            EventView::Written(Err(e)) => CallPhaseView::Done { result: Err(e) },
            _ => phase,
        },
        CallPhaseView::WaitingForResponse { response_reader } => match event {
            EventView::Waited(Ok(statuses)) => if statuses[0] == ChannelReadStatus::ReadReady {
                CallPhaseView::ReadingResponse { response_reader }
            } else {
                CallPhaseView::Done { result: Err(OakStatus::ErrInternal) }
            },
            EventView::Waited(Err(e)) => CallPhaseView::Done { result: Err(e) },
            _ => phase,
        },
        CallPhaseView::ReadingResponse { .. } => match event {
            EventView::Read(Ok(message)) => CallPhaseView::Done { result: body_from_read(message) },
            EventView::Read(Err(e)) => CallPhaseView::Done { result: Err(e) },
            _ => phase,
        },
        CallPhaseView::Done { .. } => phase,
    }
}

/// The call after `event`.
pub open spec fn call_next(call: UnaryCallView, event: EventView) -> UnaryCallView {
    UnaryCallView { writer: call.writer, request: call.request, phase: phase_next(call.phase, event) }
}

impl GrpcRequestHandler {
    /// Creates a handler for calls to `method_name`, forwarded to `writer`.
    pub fn new(writer: Handle, method_name: String) -> (handler: GrpcRequestHandler)
        ensures
            handler.writer == writer,
            handler.method_name@ == method_name@,
    {
        GrpcRequestHandler { writer, method_name }
    }

    /// Starts a call whose request body is `req_msg`; the first request to the
    /// runtime is to create the request channel.
    pub fn call(&self, req_msg: Vec<u8>) -> (r: (UnaryCall, RuntimeAction))
        ensures
            r.0@ == call_start(self.writer, call_request(self.method_name@, req_msg@)),
            r.0@.writer == self.writer,
            r.0@.request.method_name == self.method_name@,
            r.0@.request.req_msg == req_msg@,
            r.0@.request.last,
            r.0@.phase == CallPhaseView::CreatingRequestChannel,
            call_action(r.0@) == Some(r.1@),
    {
        let request = GrpcRequest { method_name: self.method_name.clone(), req_msg, last: true };
        let call = UnaryCall { writer: self.writer, request, phase: CallPhase::CreatingRequestChannel };
        (call, RuntimeAction::ChannelCreate(Label::public_trusted()))
    }
}

/// The message that carries `request`'s encoding.
fn encoded_request(request: &GrpcRequest) -> (m: NodeMessage)
    ensures
        m@ == request_message(request@),
        m@.handles.len() == 0,
        encode_utf8(request.method_name@).len() <= u64::MAX ==> parse_grpc_request(m@.data) == Some(
            request@,
        ),
{
    let m = NodeMessage { data: encode_grpc_request(request), handles: Vec::new() };
    assert(m@.handles =~= Seq::empty());
    m
}

impl UnaryCall {
    /// Takes the outcome of the last request to the runtime and yields the
    /// next request, or `None` once the call is done.
    pub fn step(&mut self, event: RuntimeEvent) -> (next: Option<RuntimeAction>)
        requires
            call_action(old(self)@) matches Some(a) && answers(a, event@),
        ensures
            final(self)@ == call_next(old(self)@, event@),
            match next {
                Some(a) => call_action(final(self)@) == Some(a@),
                None => call_action(final(self)@) is None,
            },
    {
        match self.phase {
            CallPhase::CreatingRequestChannel => match event {
                RuntimeEvent::Created(Ok((w, r))) => {
                    self.phase = CallPhase::CreatingResponseChannel {
                        request_writer: w,
                        request_reader: r,
                    };
                    Some(RuntimeAction::ChannelCreate(Label::public_trusted()))
                },
                RuntimeEvent::Created(Err(e)) => {
                    self.phase = CallPhase::Done { result: Err(e) };
                    None
                },
                _ => None,
            },
            CallPhase::CreatingResponseChannel { request_writer, request_reader } => match event {
                RuntimeEvent::Created(Ok((w, r))) => {
                    self.phase = CallPhase::WritingRequest {
                        request_writer,
                        request_reader,
                        response_writer: w,
                        response_reader: r,
                    };
                    Some(RuntimeAction::ChannelWrite(request_writer, encoded_request(&self.request)))
                },
                RuntimeEvent::Created(Err(e)) => {
                    self.phase = CallPhase::Done { result: Err(e) };
                    None
                },
                _ => None,
            },
            CallPhase::WritingRequest { request_reader, response_writer, response_reader, .. } =>
                match event {
                RuntimeEvent::Written(Ok(())) => {
                    self.phase = CallPhase::WritingInvocation {
                        request_reader,
                        response_writer,
                        response_reader,
                    };
                    let mut handles: Vec<Handle> = Vec::new();
                    handles.push(request_reader);
                    handles.push(response_writer);
                    let invocation = NodeMessage { data: Vec::new(), handles };
                    assert(invocation@.data =~= Seq::empty());
                    assert(invocation@.handles =~= seq![request_reader, response_writer]);
                    Some(RuntimeAction::ChannelWrite(self.writer, invocation))
                },
                RuntimeEvent::Written(Err(e)) => {
                    self.phase = CallPhase::Done { result: Err(e) };
                    None
                },
                _ => None,
            },
            CallPhase::WritingInvocation { response_reader, .. } => match event {
                RuntimeEvent::Written(Ok(())) => {
                    self.phase = CallPhase::WaitingForResponse { response_reader };
                    let mut handles: Vec<Handle> = Vec::new();
                    handles.push(response_reader);
                    assert(handles@ =~= seq![response_reader]);
                    Some(RuntimeAction::WaitOnChannels(handles))
                },
                RuntimeEvent::Written(Err(e)) => {
                    self.phase = CallPhase::Done { result: Err(e) };
                    None
                },
                _ => None,
            },
            CallPhase::WaitingForResponse { response_reader } => match event {
                RuntimeEvent::Waited(Ok(statuses)) => {
                    if statuses[0] == ChannelReadStatus::ReadReady {
                        self.phase = CallPhase::ReadingResponse { response_reader };
                        Some(RuntimeAction::ChannelRead(response_reader))
                    } else {
                        self.phase = CallPhase::Done { result: Err(OakStatus::ErrInternal) };
                        None
                    }
                },
                RuntimeEvent::Waited(Err(e)) => {
                    self.phase = CallPhase::Done { result: Err(e) };
                    None
                },
                _ => None,
            },
            CallPhase::ReadingResponse { .. } => match event {
                RuntimeEvent::Read(Ok(message)) => {
                    let data = match message {
                        Some(m) => m.data,
                        None => Vec::new(),
                    };
                    let result = match decode_grpc_response(data.as_slice()) {
                        Ok(response) => Ok(response.rsp_msg),
                        Err(_) => Err(OakStatus::ErrInternal),
                    };
                    self.phase = CallPhase::Done { result };
                    None
                },
                RuntimeEvent::Read(Err(e)) => {
                    self.phase = CallPhase::Done { result: Err(e) };
                    None
                },
                _ => None,
            },
            CallPhase::Done { .. } => None,
        }
    }

    /// The reply body or the error, once the call is done.
    pub fn into_result(self) -> (r: Option<Result<Vec<u8>, OakStatus>>)
        ensures
            match self@.phase {
                CallPhaseView::Done { result } => r matches Some(x) && match (x, result) {
                    (Ok(b), Ok(s)) => b@ == s,
                    (Err(e), Err(f)) => e == f,
                    _ => false,
                },
                _ => r is None,
            },
    {
        match self.phase {
            CallPhase::Done { result } => Some(result),
            _ => None,
        }
    }
}

/// How far a call has come: one more for each request answered, six when
/// it is done.
pub open spec fn phase_rank(phase: CallPhaseView) -> nat {
    match phase {
        CallPhaseView::CreatingRequestChannel => 0,
        CallPhaseView::CreatingResponseChannel { .. } => 1,
        CallPhaseView::WritingRequest { .. } => 2,
        CallPhaseView::WritingInvocation { .. } => 3,
        CallPhaseView::WaitingForResponse { .. } => 4,
        CallPhaseView::ReadingResponse { .. } => 5,
        CallPhaseView::Done { .. } => 6,
    }
}

/// Whether `events`, in order, answer the requests that `call` makes.
pub open spec fn call_accepts(call: UnaryCallView, events: Seq<EventView>) -> bool
    decreases events.len(),
{
    if events.len() == 0 {
        true
    } else {
        match call_action(call) {
            Some(a) => answers(a, events[0]) && call_accepts(call_next(call, events[0]), events.drop_first()),
            None => false,
        }
    }
}

/// The error that an outcome reports, if any.
pub open spec fn event_error(event: EventView) -> Option<OakStatus> {
    match event {
        EventView::Waited(Err(e)) => Some(e),
        EventView::Read(Err(e)) => Some(e),
        EventView::Created(Err(e)) => Some(e),
        EventView::Written(Err(e)) => Some(e),
        _ => None,
    }
}

/// Each answered request moves a call forward.
proof fn lemma_step_advances(call: UnaryCallView, event: EventView)
    requires
        call_action(call) matches Some(a) && answers(a, event),
    ensures
        phase_rank(call.phase) < phase_rank(call_next(call, event).phase),
{
}

/// A call asks the runtime at most six things, however the runtime answers:
/// from any point, the requests still to come and the ground covered add up
/// to no more than six.
pub proof fn law_call_asks_at_most_six_things(call: UnaryCallView, events: Seq<EventView>)
    requires
        call_accepts(call, events),
    ensures
        events.len() + phase_rank(call.phase) <= 6,
    decreases events.len(),
{
    if events.len() > 0 {
        lemma_step_advances(call, events[0]);
        law_call_asks_at_most_six_things(call_next(call, events[0]), events.drop_first());
    }
}

/// A call asks nothing more exactly when it is done.
pub proof fn law_call_stops_when_done(call: UnaryCallView)
    ensures
        call_action(call) is None <==> call.phase is Done,
{
}

/// Any error that the runtime reports ends the call with that very error.
pub proof fn law_runtime_errors_end_the_call(call: UnaryCallView, event: EventView)
    requires
        call_action(call) matches Some(a) && answers(a, event),
        event_error(event) is Some,
    ensures
        call_next(call, event).phase == (CallPhaseView::Done { result: Err(event_error(event)->0) }),
{
}

/// When every request succeeds, a call creates two channels, writes the
/// encoded request into the first, sends the Node an invocation carrying the
/// first channel's reader and the second channel's writer, in that order,
/// waits on the second channel's reader, reads from it, and ends with the
/// body of the reply read.
pub proof fn law_call_forwards_over_fresh_channels(
    writer: Handle,
    method_name: Seq<char>,
    req_msg: Seq<u8>,
    request_writer: Handle,
    request_reader: Handle,
    response_writer: Handle,
    response_reader: Handle,
    statuses: Seq<ChannelReadStatus>,
    reply: Option<NodeMessageView>,
)
    requires
        statuses.len() > 0,
        statuses[0] == ChannelReadStatus::ReadReady,
        req_msg.len() <= u64::MAX,
    ensures
        encode_utf8(method_name).len() <= u64::MAX ==> ({
            let request = call_request(method_name, req_msg);
            let c0 = call_start(writer, request);
            let c1 = call_next(c0, EventView::Created(Ok((request_writer, request_reader))));
            let c2 = call_next(c1, EventView::Created(Ok((response_writer, response_reader))));
            &&& call_action(c2) matches Some(ActionView::ChannelWrite(h, m))
            &&& h == request_writer
            &&& m.handles.len() == 0
            &&& parse_grpc_request(m.data) == Some(
                GrpcRequestView { method_name, req_msg, last: true },
            )
        }),
        ({
            let request = call_request(method_name, req_msg);
            let c0 = call_start(writer, request);
            let c1 = call_next(c0, EventView::Created(Ok((request_writer, request_reader))));
            let c2 = call_next(c1, EventView::Created(Ok((response_writer, response_reader))));
            let c3 = call_next(c2, EventView::Written(Ok(())));
            &&& call_action(c3) matches Some(ActionView::ChannelWrite(h, m))
            &&& h == writer
            &&& m.data.len() == 0
            &&& m.handles.len() == 2
            &&& m.handles[0] == request_reader
            &&& m.handles[1] == response_writer
        }),
        ({
            let request = call_request(method_name, req_msg);
            let c0 = call_start(writer, request);
            let c1 = call_next(c0, EventView::Created(Ok((request_writer, request_reader))));
            let c2 = call_next(c1, EventView::Created(Ok((response_writer, response_reader))));
            let c3 = call_next(c2, EventView::Written(Ok(())));
            let c4 = call_next(c3, EventView::Written(Ok(())));
            let c5 = call_next(c4, EventView::Waited(Ok(statuses)));
            let c6 = call_next(c5, EventView::Read(Ok(reply)));
            &&& call_action(c0) == Some(ActionView::ChannelCreate(public_trusted_label()))
            &&& call_action(c1) == Some(ActionView::ChannelCreate(public_trusted_label()))
            &&& call_action(c2) == Some(ActionView::ChannelWrite(request_writer, request_message(request)))
            &&& call_action(c3) == Some(
                ActionView::ChannelWrite(writer, invocation_message(request_reader, response_writer)),
            )
            &&& call_action(c4) == Some(ActionView::WaitOnChannels(seq![response_reader]))
            &&& call_action(c5) == Some(ActionView::ChannelRead(response_reader))
            &&& c6.phase == (CallPhaseView::Done { result: body_from_read(reply) })
        }),
{
    if encode_utf8(method_name).len() <= u64::MAX {
        law_request_round_trip(GrpcRequestView { method_name, req_msg, last: true });
    }
}

/// The request a call forwards is the client's: the handler's method name,
/// the client's body unchanged, and `last` set.
pub proof fn law_call_forwards_client_request(writer: Handle, method_name: Seq<char>, req_msg: Seq<u8>)
    ensures
        call_start(writer, call_request(method_name, req_msg)).request.method_name == method_name,
        call_start(writer, call_request(method_name, req_msg)).request.req_msg == req_msg,
        call_start(writer, call_request(method_name, req_msg)).request.last,
        call_start(writer, call_request(method_name, req_msg)).writer == writer,
{
}

/// A response channel that yields no message gives an empty reply body.
pub proof fn law_absent_reply_is_empty_body()
    ensures
        body_from_read(None) == Ok::<Seq<u8>, OakStatus>(Seq::<u8>::empty()),
{
    assert(parse_grpc_response(Seq::empty()) == Some(empty_response()));
}

/// The reply body is the response message that the Node wrote, whatever
/// status and flags came with it.
pub proof fn law_reply_body_is_written_response(response: GrpcResponseView, handles: Seq<Handle>)
    requires
        encodable_response(response),
    ensures
        body_from_read(Some(NodeMessageView { data: response_bytes(response), handles })) == Ok::<
            Seq<u8>,
            OakStatus,
        >(response.rsp_msg),
{
    law_response_round_trip(response);
}

/// The reply to the client: the body, or, for any error inside the runtime,
/// an internal error with no description.
pub fn grpc_reply(result: Result<Vec<u8>, OakStatus>) -> (r: Result<Vec<u8>, RpcStatus>)
    ensures
        match result {
            Ok(body) => r matches Ok(b) && b@ == body@,
            Err(_) => r matches Err(s) && s.code == GRPC_CODE_INTERNAL && s.message@.len() == 0,
        },
{
    match result {
        Ok(body) => Ok(body),
        Err(_) => Err(RpcStatus { code: GRPC_CODE_INTERNAL, message: String::new() }),
    }
}

} // verus!
