//! The inbound side of the data model: one parsed protocol occurrence and
//! the bot's own identity, with their mathematical views.

use vstd::prelude::*;

verus! {

/// What kind of occurrence an event is, with its payload.
#[derive(Debug, Clone, PartialEq, Eq)]
pub enum EventKind {
    /// A chat line aimed at a channel or user.
    Chat { target: String, text: String },
    /// Someone entered a channel.
    Join,
    /// Someone left a channel.
    Part,
    /// Anything else the protocol produces.
    Other,
}

pub enum EventKindView {
    Chat { target: Seq<char>, text: Seq<char> },
    Join,
    Part,
    Other,
}

impl View for EventKind {
    type V = EventKindView;

    open spec fn view(&self) -> EventKindView {
        match self {
            EventKind::Chat { target, text } => EventKindView::Chat {
                target: target@,
                text: text@,
            },
            EventKind::Join => EventKindView::Join,
            EventKind::Part => EventKindView::Part,
            EventKind::Other => EventKindView::Other,
        }
    }
}

/// One immutable inbound event: kind and payload, the source identity if the
/// transport supplied one, and the arrival stamp the event source recorded.
#[derive(Debug, Clone, PartialEq, Eq)]
pub struct InboundEvent {
    pub kind: EventKind,
    pub source: Option<String>,
    pub stamp: String,
}

pub struct InboundEventView {
    pub kind: EventKindView,
    pub source: Option<Seq<char>>,
    pub stamp: Seq<char>,
}

impl View for InboundEvent {
    type V = InboundEventView;

    open spec fn view(&self) -> InboundEventView {
        InboundEventView {
            kind: self.kind@,
            source: match &self.source {
                Some(s) => Some(s@),
                None => None,
            },
            stamp: self.stamp@,
        }
    }
}

/// The bot's own active identity, as the connection reports it.
#[derive(Debug, Clone, PartialEq, Eq)]
pub struct Identity {
    pub nickname: String,
}

impl View for Identity {
    type V = Seq<char>;

    open spec fn view(&self) -> Seq<char> {
        self.nickname@
    }
}

} // verus!
