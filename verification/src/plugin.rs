//! The plugin capability: the two-operation contract every reactive unit
//! satisfies. The predicate is a pure read; the action may change only the
//! plugin's own state and decides one outbound action. Both are pinned to
//! the plugin's functional model, so the dispatch core can be reasoned
//! about uniformly over any plugin.

use vstd::prelude::*;
use crate::action::{Action, ActionView, PluginError};
use crate::event::{Identity, InboundEvent, InboundEventView};

verus! {

/// The view of an action result.
pub open spec fn result_view(r: Result<Action, PluginError>) -> Result<ActionView, PluginError> {
    match r {
        Ok(a) => Ok(a@),
        Err(e) => Err(e),
    }
}

/// The capability contract: a side-effect-free predicate deciding whether
/// the plugin wants an event, and an action that may update the plugin's
/// state and yields an outbound action or a failure. Both are functions of
/// the plugin's state, the bot's identity and the event, as the two spec
/// functions state.
pub trait Plugin: View + Sized {
    /// Whether a plugin in state `m` wants event `ev`.
    spec fn allows(m: Self::V, nick: Seq<char>, ev: InboundEventView) -> bool;

    /// The state after the action runs on `ev`, with what it decided.
    spec fn step(m: Self::V, nick: Seq<char>, ev: InboundEventView) -> (Self::V, Result<
        ActionView,
        PluginError,
    >);

    /// The predicate: a read of the event and the plugin's state.
    fn is_allowed(&self, ctx: &Identity, ev: &InboundEvent) -> (b: bool)
        ensures
            b == Self::allows(self@, ctx@, ev@),
    ;

    /// The action: runs the plugin on the event.
    fn execute(&mut self, ctx: &Identity, ev: &InboundEvent) -> (r: Result<Action, PluginError>)
        ensures
            final(self)@ == Self::step(old(self)@, ctx@, ev@).0,
            result_view(r) == Self::step(old(self)@, ctx@, ev@).1,
    ;
}

} // verus!
