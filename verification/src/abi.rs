//! The Oak ABI values that the gRPC server pseudo-Node exchanges with the runtime.

use vstd::prelude::*;

verus! {

/// A handle to one half of an Oak channel.
pub type Handle = u64;

/// Status codes returned by the Oak runtime's host functions.
#[derive(Clone, Copy, Debug, PartialEq, Eq, Structural)]
pub enum OakStatus {
    Unspecified,
    /// The call succeeded (`OAK_STATUS_OK`).
    Success,
    ErrBadHandle,
    ErrInvalidArgs,
    ErrChannelClosed,
    ErrBufferTooSmall,
    ErrHandleSpaceTooSmall,
    ErrOutOfRange,
    ErrInternal,
    ErrTerminated,
    ErrChannelEmpty,
    ErrPermissionDenied,
}

/// Readiness of a channel, as reported by waiting on it.
#[derive(Clone, Copy, Debug, PartialEq, Eq, Structural)]
pub enum ChannelReadStatus {
    NotReady,
    ReadReady,
    InvalidChannel,
    Orphaned,
    PermissionDenied,
}

/// A message carried by an Oak channel: bytes plus attached channel handles.
#[derive(Clone, Debug)]
pub struct NodeMessage {
    pub data: Vec<u8>,
    pub handles: Vec<Handle>,
}

/// The mathematical content of a [`NodeMessage`].
pub struct NodeMessageView {
    pub data: Seq<u8>,
    pub handles: Seq<Handle>,
}

impl View for NodeMessage {
    type V = NodeMessageView;

    open spec fn view(&self) -> NodeMessageView {
        NodeMessageView { data: self.data@, handles: self.handles@ }
    }
}

/// An information-flow label: secrecy and integrity tags, each in its
/// serialized form.
#[derive(Clone, Debug)]
pub struct Label {
    pub secrecy_tags: Vec<Vec<u8>>,
    pub integrity_tags: Vec<Vec<u8>>,
}

/// The mathematical content of a [`Label`].
pub struct LabelView {
    pub secrecy_tags: Seq<Seq<u8>>,
    pub integrity_tags: Seq<Seq<u8>>,
}

impl View for Label {
    type V = LabelView;

    open spec fn view(&self) -> LabelView {
        LabelView {
            secrecy_tags: self.secrecy_tags@.map_values(|t: Vec<u8>| t@),
            integrity_tags: self.integrity_tags@.map_values(|t: Vec<u8>| t@),
        }
    }
}

/// The label with neither secrecy nor integrity tags: data under it is public
/// and trusted by nobody in particular.
pub open spec fn public_trusted_label() -> LabelView {
    LabelView { secrecy_tags: Seq::empty(), integrity_tags: Seq::empty() }
}

impl Label {

    /// Returns the least secret, least trusted label.
    pub fn public_trusted() -> (label: Label)
        ensures
            label@ == public_trusted_label(),
    {
        let label = Label { secrecy_tags: Vec::new(), integrity_tags: Vec::new() };
        assert(label@.secrecy_tags =~= Seq::empty());
        assert(label@.integrity_tags =~= Seq::empty());
        label
    }
}

} // verus!
