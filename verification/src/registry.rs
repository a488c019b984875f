//! One handle type over every plugin the bot ships, and the registry the
//! bot builds at startup.

use vstd::prelude::*;
use crate::action::{Action, ActionView, PluginError};
use crate::dispatch::PluginRegistry;
use crate::event::{Identity, InboundEvent, InboundEventView};
use crate::plugin::Plugin;
use crate::plugins::currency::Currency;
use crate::plugins::h::H;
use crate::plugins::lastfm::{LastFM, LastFMUserView};
use crate::plugins::probe::{CountEntryView, CounterPlugin, EchoPlugin, FailingPlugin};
use crate::plugins::seen::{Seen, UserView};
use crate::plugins::tangorin::Tangorin;
use crate::plugins::url::Url;

verus! {

/// A handle to any of the plugins: the registry stores these, never the
/// concrete types.
pub enum AnyPlugin {
    H(H),
    Url(Url),
    Seen(Seen),
    LastFM(LastFM),
    Tangorin(Tangorin),
    Currency(Currency),
    Echo(EchoPlugin),
    Counter(CounterPlugin),
    Failing(FailingPlugin),
}

pub enum AnyPluginView {
    H,
    Url,
    Seen(Seq<UserView>),
    LastFM(Seq<LastFMUserView>),
    Tangorin,
    Currency,
    Echo,
    Counter(Seq<CountEntryView>),
    Failing,
}

impl View for AnyPlugin {
    type V = AnyPluginView;

    open spec fn view(&self) -> AnyPluginView {
        match self {
            AnyPlugin::H(p) => AnyPluginView::H,
            AnyPlugin::Url(p) => AnyPluginView::Url,
            AnyPlugin::Seen(p) => AnyPluginView::Seen(p@),
            AnyPlugin::LastFM(p) => AnyPluginView::LastFM(p@),
            AnyPlugin::Tangorin(p) => AnyPluginView::Tangorin,
            AnyPlugin::Currency(p) => AnyPluginView::Currency,
            AnyPlugin::Echo(p) => AnyPluginView::Echo,
            AnyPlugin::Counter(p) => AnyPluginView::Counter(p@),
            AnyPlugin::Failing(p) => AnyPluginView::Failing,
        }
    }
}

impl Plugin for AnyPlugin {
    /// Defers to the plugin the handle holds.
    open spec fn allows(m: AnyPluginView, nick: Seq<char>, ev: InboundEventView) -> bool {
        match m {
            AnyPluginView::H => <H as Plugin>::allows((), nick, ev),
            AnyPluginView::Url => <Url as Plugin>::allows((), nick, ev),
            AnyPluginView::Seen(us) => <Seen as Plugin>::allows(us, nick, ev),
            AnyPluginView::LastFM(us) => <LastFM as Plugin>::allows(us, nick, ev),
            AnyPluginView::Tangorin => <Tangorin as Plugin>::allows((), nick, ev),
            AnyPluginView::Currency => <Currency as Plugin>::allows((), nick, ev),
            AnyPluginView::Echo => <EchoPlugin as Plugin>::allows((), nick, ev),
            AnyPluginView::Counter(cs) => <CounterPlugin as Plugin>::allows(cs, nick, ev),
            AnyPluginView::Failing => <FailingPlugin as Plugin>::allows((), nick, ev),
        }
    }

    /// Defers to the plugin the handle holds.
    open spec fn step(m: AnyPluginView, nick: Seq<char>, ev: InboundEventView) -> (
        AnyPluginView,
        Result<ActionView, PluginError>,
    ) {
        match m {
            AnyPluginView::H => {
                let r = <H as Plugin>::step((), nick, ev);
                (AnyPluginView::H, r.1)
            },
            AnyPluginView::Url => {
                let r = <Url as Plugin>::step((), nick, ev);
                (AnyPluginView::Url, r.1)
            },
            AnyPluginView::Seen(us) => {
                let r = <Seen as Plugin>::step(us, nick, ev);
                (AnyPluginView::Seen(r.0), r.1)
            },
            AnyPluginView::LastFM(us) => {
                let r = <LastFM as Plugin>::step(us, nick, ev);
                (AnyPluginView::LastFM(r.0), r.1)
            },
            AnyPluginView::Tangorin => {
                let r = <Tangorin as Plugin>::step((), nick, ev);
                (AnyPluginView::Tangorin, r.1)
            },
            AnyPluginView::Currency => {
                let r = <Currency as Plugin>::step((), nick, ev);
                (AnyPluginView::Currency, r.1)
            },
            AnyPluginView::Echo => {
                let r = <EchoPlugin as Plugin>::step((), nick, ev);
                (AnyPluginView::Echo, r.1)
            },
            AnyPluginView::Counter(cs) => {
                let r = <CounterPlugin as Plugin>::step(cs, nick, ev);
                (AnyPluginView::Counter(r.0), r.1)
            },
            AnyPluginView::Failing => {
                let r = <FailingPlugin as Plugin>::step((), nick, ev);
                (AnyPluginView::Failing, r.1)
            },
        }
    }

    fn is_allowed(&self, ctx: &Identity, ev: &InboundEvent) -> (b: bool) {
        match self {
            AnyPlugin::H(p) => p.is_allowed(ctx, ev),
            AnyPlugin::Url(p) => p.is_allowed(ctx, ev),
            AnyPlugin::Seen(p) => p.is_allowed(ctx, ev),
            AnyPlugin::LastFM(p) => p.is_allowed(ctx, ev),
            AnyPlugin::Tangorin(p) => p.is_allowed(ctx, ev),
            AnyPlugin::Currency(p) => p.is_allowed(ctx, ev),
            AnyPlugin::Echo(p) => p.is_allowed(ctx, ev),
            AnyPlugin::Counter(p) => p.is_allowed(ctx, ev),
            AnyPlugin::Failing(p) => p.is_allowed(ctx, ev),
        }
    }

    fn execute(&mut self, ctx: &Identity, ev: &InboundEvent) -> (r: Result<Action, PluginError>) {
        match self {
            AnyPlugin::H(p) => p.execute(ctx, ev),
            AnyPlugin::Url(p) => p.execute(ctx, ev),
            AnyPlugin::Seen(p) => p.execute(ctx, ev),
            AnyPlugin::LastFM(p) => p.execute(ctx, ev),
            AnyPlugin::Tangorin(p) => p.execute(ctx, ev),
            AnyPlugin::Currency(p) => p.execute(ctx, ev),
            AnyPlugin::Echo(p) => p.execute(ctx, ev),
            AnyPlugin::Counter(p) => p.execute(ctx, ev),
            AnyPlugin::Failing(p) => p.execute(ctx, ev),
        }
    }
}

/// The registry the bot starts with: every shipped plugin, in the order
/// the bot registers them.
pub fn standard_registry() -> (reg: PluginRegistry<AnyPlugin>)
    ensures
        reg@ == seq![
            AnyPluginView::H,
            AnyPluginView::Url,
            AnyPluginView::Seen(Seq::empty()),
            AnyPluginView::LastFM(Seq::empty()),
            AnyPluginView::Tangorin,
            AnyPluginView::Currency,
        ],
{
    let mut reg: PluginRegistry<AnyPlugin> = PluginRegistry::new();
    reg.register(AnyPlugin::H(H::new()));
    reg.register(AnyPlugin::Url(Url::new()));
    reg.register(AnyPlugin::Seen(Seen::new()));
    reg.register(AnyPlugin::LastFM(LastFM::new()));
    reg.register(AnyPlugin::Tangorin(Tangorin::new()));
    reg.register(AnyPlugin::Currency(Currency::new()));
    proof {
        assert(reg@ =~= seq![
            AnyPluginView::H,
            AnyPluginView::Url,
            AnyPluginView::Seen(Seq::empty()),
            AnyPluginView::LastFM(Seq::empty()),
            AnyPluginView::Tangorin,
            AnyPluginView::Currency,
        ]);
    }
    reg
}

} // verus!
