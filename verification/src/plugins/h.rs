//! Greets back: answers `h <botname>` with `h <sender>`.

use vstd::prelude::*;
use vstd::string::*;
use crate::action::{Action, ActionView, PluginError};
use crate::event::{EventKind, EventKindView, Identity, InboundEvent, InboundEventView};
use crate::plugin::Plugin;
use crate::text::{chars_eq, to_chars, trim_chars, trim_spec};

verus! {

pub struct H {}

impl H {
    pub fn new() -> (p: H)
        ensures
            p@ == (),
    {
        H {  }
    }
}

impl View for H {
    type V = ();

    open spec fn view(&self) -> () {
        ()
    }
}

/// The source nickname of an event, or the empty name if the transport gave
/// none.
pub open spec fn source_or_empty(source: Option<Seq<char>>) -> Seq<char> {
    match source {
        Some(s) => s,
        None => Seq::empty(),
    }
}

impl Plugin for H {
    /// Wants exactly the chat lines whose trimmed text is `h <botname>`.
    open spec fn allows(m: (), nick: Seq<char>, ev: InboundEventView) -> bool {
        match ev.kind {
            EventKindView::Chat { target, text } => trim_spec(text) == "h "@ + nick,
            _ => false,
        }
    }

    /// Answers `h <sender>` toward the chat target; never changes state.
    open spec fn step(m: (), nick: Seq<char>, ev: InboundEventView) -> ((), Result<
        ActionView,
        PluginError,
    >) {
        match ev.kind {
            EventKindView::Chat { target, text } => (
                (),
                Ok(
                    ActionView::Send {
                        target: target,
                        text: "h "@ + source_or_empty(ev.source),
                    },
                ),
            ),
            _ => ((), Ok(ActionView::Idle)),
        }
    }

    fn is_allowed(&self, ctx: &Identity, ev: &InboundEvent) -> (b: bool) {
        match &ev.kind {
            EventKind::Chat { target: _, text } => {
                let tc = to_chars(text.as_str());
                let trimmed = trim_chars(&tc);
                let mut expected = to_chars("h ");
                let mut nickc = to_chars(ctx.nickname.as_str());
                expected.append(&mut nickc);
                chars_eq(&trimmed, &expected)
            },
            _ => false,
        }
    }

    fn execute(&mut self, ctx: &Identity, ev: &InboundEvent) -> (r: Result<Action, PluginError>) {
        match &ev.kind {
            EventKind::Chat { target, text: _ } => {
                let mut t = String::from_str("h ");
                match &ev.source {
                    Some(s) => t.append(s.as_str()),
                    None => (),
                }
                Ok(Action::Send { target: target.clone(), text: t })
            },
            _ => Ok(Action::Idle),
        }
    }
}

} // verus!
