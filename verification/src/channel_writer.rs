//! Receiving the channel writer that a gRPC server pseudo-Node forwards
//! requests to.
//!
//! At start-up the pseudo-Node waits on its initial channel, reads one
//! message from it and expects exactly one handle attached: the writer half
//! of the channel that invocations go to. Any other outcome is an internal
//! error.

use vstd::prelude::*;
use crate::abi::{ChannelReadStatus, Handle, NodeMessageView, OakStatus};
use crate::host::{ActionView, EventView, RuntimeAction, RuntimeEvent, answers};

verus! {

/// Where receiving the channel writer stands.
#[derive(Debug)]
pub enum ChannelWriterSetup {
    /// Waiting until the initial channel is readable.
    WaitingForChannel { handle: Handle },
    /// Reading the message from the initial channel.
    ReadingChannel { handle: Handle },
    /// Finished, with the writer handle or the error.
    Done { result: Result<Handle, OakStatus> },
}

/// The mathematical content of a [`ChannelWriterSetup`]: it holds no
/// collection, so it is its own view.
impl View for ChannelWriterSetup {
    type V = ChannelWriterSetup;

    open spec fn view(&self) -> ChannelWriterSetup {
        *self
    }
}

/// What the setup asks of the runtime next, if anything.
pub open spec fn writer_setup_action(state: ChannelWriterSetup) -> Option<ActionView> {
    match state {
        ChannelWriterSetup::WaitingForChannel { handle } => Some(
            ActionView::WaitOnChannels(seq![handle]),
        ),
        ChannelWriterSetup::ReadingChannel { handle } => Some(ActionView::ChannelRead(handle)),
        ChannelWriterSetup::Done { .. } => None,
    }
}

/// The writer handle that a message read from the initial channel yields:
/// the one handle attached to it. No message, a read error, or a number of
/// handles other than one is an internal error.
pub open spec fn writer_from_read(read: Result<Option<NodeMessageView>, OakStatus>) -> Result<Handle, OakStatus> {
    match read {
        Ok(Some(m)) => if m.handles.len() == 1 {
            Ok(m.handles[0])
        } else {
            Err(OakStatus::ErrInternal)
        },
        _ => Err(OakStatus::ErrInternal),
    }
}

/// The state the setup moves to on `event`.
pub open spec fn writer_setup_next(state: ChannelWriterSetup, event: EventView) -> ChannelWriterSetup {
    match state {
        ChannelWriterSetup::WaitingForChannel { handle } => match event {
            EventView::Waited(Ok(statuses)) => if statuses[0] == ChannelReadStatus::ReadReady {
                ChannelWriterSetup::ReadingChannel { handle }
            } else {
                ChannelWriterSetup::Done { result: Err(OakStatus::ErrInternal) }
            },
            _ => ChannelWriterSetup::Done { result: Err(OakStatus::ErrInternal) },
        },
        ChannelWriterSetup::ReadingChannel { handle } => match event {
            EventView::Read(read) => ChannelWriterSetup::Done { result: writer_from_read(read) },
            _ => state,
        },
        ChannelWriterSetup::Done { .. } => state,
    }
}

impl ChannelWriterSetup {
    /// Starts receiving the channel writer from the channel `handle`; the
    /// first request is to wait on that channel.
    pub fn start(handle: Handle) -> (r: (ChannelWriterSetup, RuntimeAction))
        ensures
            r.0 == (ChannelWriterSetup::WaitingForChannel { handle }),
            writer_setup_action(r.0) == Some(r.1@),
    {
        let mut hs: Vec<Handle> = Vec::new();
        hs.push(handle);
        assert(hs@ =~= seq![handle]);
        (ChannelWriterSetup::WaitingForChannel { handle }, RuntimeAction::WaitOnChannels(hs))
    }

    /// Takes the outcome of the last request and yields the next one, or
    /// `None` once the setup is done.
    pub fn step(&mut self, event: RuntimeEvent) -> (next: Option<RuntimeAction>)
        requires
            writer_setup_action(*old(self)) matches Some(a) && answers(a, event@),
        ensures
            *final(self) == writer_setup_next(*old(self), event@),
            match next {
                Some(a) => writer_setup_action(*final(self)) == Some(a@),
                None => writer_setup_action(*final(self)) is None,
            },
    {
        match *self {
            ChannelWriterSetup::WaitingForChannel { handle } => {
                match event {
                    RuntimeEvent::Waited(Ok(statuses)) => {
                        if statuses[0] == ChannelReadStatus::ReadReady {
                            *self = ChannelWriterSetup::ReadingChannel { handle };
                            Some(RuntimeAction::ChannelRead(handle))
                        } else {
                            *self = ChannelWriterSetup::Done { result: Err(OakStatus::ErrInternal) };
                            None
                        }
                    },
                    _ => {
                        *self = ChannelWriterSetup::Done { result: Err(OakStatus::ErrInternal) };
                        None
                    },
                }
            },
            ChannelWriterSetup::ReadingChannel { .. } => {
                let result = match event {
                    RuntimeEvent::Read(Ok(Some(m))) => {
                        if m.handles.len() == 1 {
                            Ok(m.handles[0])
                        } else {
                            Err(OakStatus::ErrInternal)
                        }
                    },
                    _ => Err(OakStatus::ErrInternal),
                };
                *self = ChannelWriterSetup::Done { result };
                None
            },
            ChannelWriterSetup::Done { .. } => None,
        }
    }

    /// The writer handle or the error, once the setup is done.
    pub fn result(&self) -> (r: Option<Result<Handle, OakStatus>>)
        ensures
            match *self {
                ChannelWriterSetup::Done { result } => r == Some(result),
                _ => r is None,
            },
    {
        match self {
            ChannelWriterSetup::Done { result } => Some(*result),
            _ => None,
        }
    }
}

/// Whether a wait reports the first channel ready to read.
pub open spec fn first_status_ready(waited: EventView) -> bool {
    match waited {
        EventView::Waited(Ok(statuses)) => statuses[0] == ChannelReadStatus::ReadReady,
        _ => false,
    }
}

/// The handle attached to a message read, if exactly one is.
pub open spec fn single_attached_handle(read: EventView) -> Option<Handle> {
    match read {
        EventView::Read(Ok(Some(m))) => if m.handles.len() == 1 {
            Some(m.handles[0])
        } else {
            None
        },
        _ => None,
    }
}

/// The pseudo-Node obtains a channel writer exactly when its initial channel
/// becomes readable and the message read from it carries exactly one handle;
/// that handle is the writer. Every other outcome is an internal error.
pub proof fn law_channel_writer_outcome(handle: Handle, waited: EventView, read: EventView)
    requires
        answers(ActionView::WaitOnChannels(seq![handle]), waited),
        answers(ActionView::ChannelRead(handle), read),
    ensures
        ({
            let first = writer_setup_next(ChannelWriterSetup::WaitingForChannel { handle }, waited);
            let last = if first is ReadingChannel {
                writer_setup_next(first, read)
            } else {
                first
            };
            last == ChannelWriterSetup::Done {
                result: match (first_status_ready(waited), single_attached_handle(read)) {
                    (true, Some(h)) => Ok(h),
                    _ => Err(OakStatus::ErrInternal),
                },
            }
        }),
{
}

} // verus!
