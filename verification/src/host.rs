//! What the gRPC server pseudo-Node asks of the Oak runtime, and what it is
//! told back.
//!
//! The pseudo-Node's logic is written as state machines: each step takes the
//! outcome of the last request to the runtime and yields the next request, or
//! the end result. Whoever drives a machine performs each request against the
//! runtime and hands the outcome to the next step.

use vstd::prelude::*;
use crate::abi::{ChannelReadStatus, Handle, Label, LabelView, NodeMessage, NodeMessageView, OakStatus};

verus! {

/// A request to the Oak runtime.
#[derive(Debug)]
pub enum RuntimeAction {
    /// Block until at least one of these channels is ready, and report the
    /// status of each.
    WaitOnChannels(Vec<Handle>),
    /// Read one message from the channel.
    ChannelRead(Handle),
    /// Create a channel with the label, yielding its writer and its reader.
    ChannelCreate(Label),
    /// Write the message to the channel.
    ChannelWrite(Handle, NodeMessage),
}

/// The mathematical content of a [`RuntimeAction`].
pub enum ActionView {
    WaitOnChannels(Seq<Handle>),
    ChannelRead(Handle),
    ChannelCreate(LabelView),
    ChannelWrite(Handle, NodeMessageView),
}

impl View for RuntimeAction {
    type V = ActionView;

    open spec fn view(&self) -> ActionView {
        match self {
            RuntimeAction::WaitOnChannels(hs) => ActionView::WaitOnChannels(hs@),
            RuntimeAction::ChannelRead(h) => ActionView::ChannelRead(*h),
            RuntimeAction::ChannelCreate(l) => ActionView::ChannelCreate(l@),
            RuntimeAction::ChannelWrite(h, m) => ActionView::ChannelWrite(*h, m@),
        }
    }
}

/// The outcome of a [`RuntimeAction`], one variant for each.
#[derive(Debug)]
pub enum RuntimeEvent {
    Waited(Result<Vec<ChannelReadStatus>, OakStatus>),
    Read(Result<Option<NodeMessage>, OakStatus>),
    Created(Result<(Handle, Handle), OakStatus>),
    Written(Result<(), OakStatus>),
}

/// The mathematical content of a [`RuntimeEvent`].
pub enum EventView {
    Waited(Result<Seq<ChannelReadStatus>, OakStatus>),
    Read(Result<Option<NodeMessageView>, OakStatus>),
    Created(Result<(Handle, Handle), OakStatus>),
    Written(Result<(), OakStatus>),
}

impl View for RuntimeEvent {
    type V = EventView;

    open spec fn view(&self) -> EventView {
        match self {
            RuntimeEvent::Waited(r) => EventView::Waited(
                match r {
                    Ok(v) => Ok(v@),
                    Err(e) => Err(*e),
                },
            ),
            RuntimeEvent::Read(r) => EventView::Read(
                match r {
                    Ok(Some(m)) => Ok(Some(m@)),
                    Ok(None) => Ok(None),
                    Err(e) => Err(*e),
                },
            ),
            RuntimeEvent::Created(r) => EventView::Created(*r),
            RuntimeEvent::Written(r) => EventView::Written(*r),
        }
    }
}

/// Whether `event` is a possible outcome of `action`: the variant that
/// answers it, and for a wait, at least one status (the runtime reports one
/// per channel waited on, and the pseudo-Node looks at the first).
pub open spec fn answers(action: ActionView, event: EventView) -> bool {
    match action {
        ActionView::WaitOnChannels(hs) => match event {
            EventView::Waited(Ok(statuses)) => statuses.len() > 0,
            EventView::Waited(Err(_)) => true,
            _ => false,
        },
        ActionView::ChannelRead(_) => event is Read,
        ActionView::ChannelCreate(_) => event is Created,
        ActionView::ChannelWrite(_, _) => event is Written,
    }
}

} // verus!
