//! Dispatch core of a chat bot: inbound protocol events are fanned out to a
//! registry of independently guarded plugins, each of which may answer with
//! an outbound action.
//!
//! The flow is: an event source yields parsed [`event::InboundEvent`]s in
//! arrival order; the core offers each to every plugin of the
//! [`dispatch::PluginRegistry`]; a plugin first answers its predicate, and
//! only if it wants the event does its action run, yielding an
//! [`action::Action`] — a chat line to send, or a piece of outside work
//! (an HTTP fetch, a rate lookup) the driver performs before the verified
//! reply formatting takes over. Every outcome is recorded as an
//! [`action::DispatchOutcome`], and a failing plugin fails alone.
//!
//! Each plugin's behaviour, and the whole dispatch loop, is pinned to a
//! functional model; the laws about fan-out, failure containment and intake
//! order are proved of that model in [`dispatch`], and the guard that
//! serializes same-plugin invocations — including recovery from a holder
//! that ended abnormally — is modelled and proved in [`guard`].

pub mod action;
pub mod dispatch;
pub mod event;
pub mod guard;
pub mod plugin;
pub mod plugins;
pub mod registry;
pub mod text;

use vstd::prelude::*;
use vstd::string::*;

verus! {

/// A chat line sent to a target, rendered in the protocol's wire form.
pub fn privmsg_line(target: &str, text: &str) -> (r: String)
    ensures
        r@ == "PRIVMSG "@ + target@ + " :"@ + text@ + "\r\n"@,
{
    let mut line = String::from_str("PRIVMSG ");
    line.append(target);
    line.append(" :");
    line.append(text);
    line.append("\r\n");
    line
}

} // verus!
