//! Inbound protocol events and their classification tag.

use vstd::prelude::*;

verus! {

/// The discriminant an inbound event is classified into.
#[derive(Debug, Clone, Copy, PartialEq, Eq, Structural)]
pub enum UpdateKind {
    GroupMessage,
    GroupMessageRecall,
    FriendMessage,
    GroupTempMessage,
    NewFriendRequest,
}

/// One inbound event of the IM protocol surface, with its kind-specific
/// payload. Owned by the dispatch pipeline for one event's processing.
#[derive(Debug)]
pub enum InboundEvent {
    GroupMessage { group_id: i64, sender_id: i64, text: String },
    FriendMessage { sender_id: i64, text: String },
    GroupTempMessage { group_id: i64, sender_id: i64, text: String },
    GroupMessageRecall { group_id: i64 },
    NewFriendRequest { req_uin: i64, req_nick: String, message: String },
}

pub open spec fn spec_classify(ev: InboundEvent) -> UpdateKind {
    match ev {
        InboundEvent::GroupMessage { .. } => UpdateKind::GroupMessage,
        InboundEvent::FriendMessage { .. } => UpdateKind::FriendMessage,
        InboundEvent::GroupTempMessage { .. } => UpdateKind::GroupTempMessage,
        InboundEvent::GroupMessageRecall { .. } => UpdateKind::GroupMessageRecall,
        InboundEvent::NewFriendRequest { .. } => UpdateKind::NewFriendRequest,
    }
}

/// The tag an event is routed under.
pub fn classify(ev: &InboundEvent) -> (k: UpdateKind)
    ensures
        k == spec_classify(*ev),
{
    match ev {
        InboundEvent::GroupMessage { .. } => UpdateKind::GroupMessage,
        InboundEvent::FriendMessage { .. } => UpdateKind::FriendMessage,
        InboundEvent::GroupTempMessage { .. } => UpdateKind::GroupTempMessage,
        InboundEvent::GroupMessageRecall { .. } => UpdateKind::GroupMessageRecall,
        InboundEvent::NewFriendRequest { .. } => UpdateKind::NewFriendRequest,
    }
}

} // verus!
