use oak_grpc_server::abi::{ChannelReadStatus, Label, NodeMessage, OakStatus};
use oak_grpc_server::channel_writer::ChannelWriterSetup;
use oak_grpc_server::encap::encode_grpc_request;
use oak_grpc_server::encap::GrpcRequest;
use oak_grpc_server::host::{RuntimeAction, RuntimeEvent};
use oak_grpc_server::node::GrpcServerNode;
use oak_grpc_server::request_handler::{grpc_reply, GrpcRequestHandler, UnaryCall, GRPC_CODE_INTERNAL};

fn message(data: Vec<u8>, handles: Vec<u64>) -> NodeMessage {
    NodeMessage { data, handles }
}

fn setup_outcome(waited: RuntimeEvent, read: Option<RuntimeEvent>) -> Result<u64, OakStatus> {
    let (mut setup, action) = GrpcServerNode::get_channel_writer(42);
    match action {
        RuntimeAction::WaitOnChannels(handles) => assert_eq!(handles, vec![42]),
        other => panic!("unexpected first action {:?}", other),
    }
    match setup.step(waited) {
        Some(RuntimeAction::ChannelRead(h)) => {
            assert_eq!(h, 42);
            assert!(setup.step(read.expect("a read was asked for")).is_none());
        }
        Some(other) => panic!("unexpected action {:?}", other),
        None => {}
    }
    setup.result().expect("setup is done")
}

#[test]
fn channel_writer_is_the_single_attached_handle() {
    let outcome = setup_outcome(
        RuntimeEvent::Waited(Ok(vec![ChannelReadStatus::ReadReady])),
        Some(RuntimeEvent::Read(Ok(Some(message(vec![], vec![7]))))),
    );
    assert_eq!(outcome, Ok(7));
}

#[test]
fn channel_writer_errors_are_internal() {
    let ready = || RuntimeEvent::Waited(Ok(vec![ChannelReadStatus::ReadReady]));
    let cases = vec![
        setup_outcome(RuntimeEvent::Waited(Err(OakStatus::ErrTerminated)), None),
        setup_outcome(RuntimeEvent::Waited(Ok(vec![ChannelReadStatus::Orphaned])), None),
        setup_outcome(ready(), Some(RuntimeEvent::Read(Err(OakStatus::ErrChannelEmpty)))),
        setup_outcome(ready(), Some(RuntimeEvent::Read(Ok(None)))),
        setup_outcome(ready(), Some(RuntimeEvent::Read(Ok(Some(message(vec![], vec![]),))))),
        setup_outcome(ready(), Some(RuntimeEvent::Read(Ok(Some(message(vec![], vec![1, 2])))))),
    ];
    for outcome in cases {
        assert_eq!(outcome, Err(OakStatus::ErrInternal));
    }
}

fn is_public_trusted(label: &Label) -> bool {
    label.secrecy_tags.is_empty() && label.integrity_tags.is_empty()
}

fn start_call() -> (UnaryCall, RuntimeAction) {
    let handler = GrpcRequestHandler::new(100, "/oak.Example/Hello".to_string());
    handler.call(vec![1, 2, 3])
}

#[test]
fn call_forwards_over_fresh_channels() {
    let (mut call, action) = start_call();
    assert!(matches!(&action, RuntimeAction::ChannelCreate(l) if is_public_trusted(l)));
    let action = call.step(RuntimeEvent::Created(Ok((10, 11)))).unwrap();
    assert!(matches!(&action, RuntimeAction::ChannelCreate(l) if is_public_trusted(l)));
    let action = call.step(RuntimeEvent::Created(Ok((20, 21)))).unwrap();
    let expected_request = encode_grpc_request(&GrpcRequest {
        method_name: "/oak.Example/Hello".to_string(),
        req_msg: vec![1, 2, 3],
        last: true,
    });
    match action {
        RuntimeAction::ChannelWrite(h, m) => {
            assert_eq!(h, 10);
            assert_eq!(m.data, expected_request);
            assert!(m.handles.is_empty());
        }
        other => panic!("unexpected action {:?}", other),
    }
    match call.step(RuntimeEvent::Written(Ok(()))).unwrap() {
        RuntimeAction::ChannelWrite(h, m) => {
            assert_eq!(h, 100);
            assert!(m.data.is_empty());
            assert_eq!(m.handles, vec![11, 20]);
        }
        other => panic!("unexpected action {:?}", other),
    }
    match call.step(RuntimeEvent::Written(Ok(()))).unwrap() {
        RuntimeAction::WaitOnChannels(hs) => assert_eq!(hs, vec![21]),
        other => panic!("unexpected action {:?}", other),
    }
    match call.step(RuntimeEvent::Waited(Ok(vec![ChannelReadStatus::ReadReady]))).unwrap() {
        RuntimeAction::ChannelRead(h) => assert_eq!(h, 21),
        other => panic!("unexpected action {:?}", other),
    }
    let reply = message(vec![0x0a, 2, 0xbe, 0xef, 0x18, 1], vec![]);
    assert!(call.step(RuntimeEvent::Read(Ok(Some(reply)))).is_none());
    assert_eq!(call.into_result(), Some(Ok(vec![0xbe, 0xef])));
}

/// Runs a call with the given outcomes for its successive requests.
fn run_call(events: Vec<RuntimeEvent>) -> Option<Result<Vec<u8>, OakStatus>> {
    let (mut call, _) = start_call();
    for event in events {
        if call.step(event).is_none() {
            break;
        }
    }
    call.into_result()
}

fn happy_prefix() -> Vec<RuntimeEvent> {
    vec![
        RuntimeEvent::Created(Ok((10, 11))),
        RuntimeEvent::Created(Ok((20, 21))),
        RuntimeEvent::Written(Ok(())),
        RuntimeEvent::Written(Ok(())),
        RuntimeEvent::Waited(Ok(vec![ChannelReadStatus::ReadReady])),
    ]
}

#[test]
fn call_passes_runtime_errors_through() {
    let failing = |n: usize, event: RuntimeEvent| {
        let mut events: Vec<RuntimeEvent> = happy_prefix().into_iter().take(n).collect();
        events.push(event);
        run_call(events)
    };
    assert_eq!(
        failing(0, RuntimeEvent::Created(Err(OakStatus::ErrPermissionDenied))),
        Some(Err(OakStatus::ErrPermissionDenied))
    );
    assert_eq!(
        failing(1, RuntimeEvent::Created(Err(OakStatus::ErrTerminated))),
        Some(Err(OakStatus::ErrTerminated))
    );
    assert_eq!(
        failing(2, RuntimeEvent::Written(Err(OakStatus::ErrChannelClosed))),
        Some(Err(OakStatus::ErrChannelClosed))
    );
    assert_eq!(
        failing(3, RuntimeEvent::Written(Err(OakStatus::ErrBadHandle))),
        Some(Err(OakStatus::ErrBadHandle))
    );
    assert_eq!(
        failing(4, RuntimeEvent::Waited(Err(OakStatus::ErrTerminated))),
        Some(Err(OakStatus::ErrTerminated))
    );
    assert_eq!(
        failing(5, RuntimeEvent::Read(Err(OakStatus::ErrChannelEmpty))),
        Some(Err(OakStatus::ErrChannelEmpty))
    );
}

#[test]
fn call_with_unready_response_channel_is_internal_error() {
    let mut events: Vec<RuntimeEvent> = happy_prefix().into_iter().take(4).collect();
    events.push(RuntimeEvent::Waited(Ok(vec![ChannelReadStatus::Orphaned])));
    assert_eq!(run_call(events), Some(Err(OakStatus::ErrInternal)));
}

#[test]
fn call_with_absent_reply_has_empty_body() {
    let mut events = happy_prefix();
    events.push(RuntimeEvent::Read(Ok(None)));
    assert_eq!(run_call(events), Some(Ok(vec![])));
}

#[test]
fn call_with_undecodable_reply_is_internal_error() {
    let mut events = happy_prefix();
    events.push(RuntimeEvent::Read(Ok(Some(message(vec![0x0a, 9, 1], vec![])))));
    assert_eq!(run_call(events), Some(Err(OakStatus::ErrInternal)));
}

#[test]
fn call_is_not_done_before_the_reply() {
    assert_eq!(run_call(happy_prefix()), None);
}

#[test]
fn reply_to_client_hides_internal_errors() {
    assert_eq!(grpc_reply(Ok(vec![1, 2])).unwrap(), vec![1, 2]);
    let status = grpc_reply(Err(OakStatus::ErrPermissionDenied)).unwrap_err();
    assert_eq!(status.code, GRPC_CODE_INTERNAL);
    assert_eq!(status.code, 13);
    assert!(status.message.is_empty());
}
