//! The dispatch core: one inbound event is fanned out to every registered
//! plugin; the predicate gates the action; per-invocation outcomes are
//! recorded and failures contained. The exec functions are pinned to a
//! functional model of the whole run, and the laws at the bottom are proved
//! of that model.

use vstd::prelude::*;
use crate::action::{ActionView, DispatchOutcome, OutcomeView, PluginError};
use crate::event::{Identity, InboundEvent, InboundEventView};
use crate::plugin::Plugin;

verus! {

/// The outcome recorded for an action result.
pub open spec fn outcome_of(r: Result<ActionView, PluginError>) -> OutcomeView {
    match r {
        Ok(a) => OutcomeView::Done(a),
        Err(e) => OutcomeView::Failed(e),
    }
}

/// The views of a sequence of plugins.
pub open spec fn views_of<P: Plugin>(s: Seq<P>) -> Seq<P::V> {
    s.map_values(|p: P| p@)
}

/// The views of a sequence of outcomes.
pub open spec fn outs_of(s: Seq<DispatchOutcome>) -> Seq<OutcomeView> {
    s.map_values(|o: DispatchOutcome| o@)
}

/// The views of a sequence of events.
pub open spec fn evs_of(s: Seq<InboundEvent>) -> Seq<InboundEventView> {
    s.map_values(|e: InboundEvent| e@)
}

/// The views of a round-by-round outcome log.
pub open spec fn log_of(s: Seq<Vec<DispatchOutcome>>) -> Seq<Seq<OutcomeView>> {
    s.map_values(|r: Vec<DispatchOutcome>| outs_of(r@))
}

/// One unit of work: what one plugin does with one event — the predicate,
/// then the action if the predicate held.
pub open spec fn invoke_model<P: Plugin>(m: P::V, nick: Seq<char>, ev: InboundEventView) -> (
    P::V,
    OutcomeView,
) {
    if P::allows(m, nick, ev) {
        let s = P::step(m, nick, ev);
        (s.0, outcome_of(s.1))
    } else {
        (m, OutcomeView::Skipped)
    }
}

/// One round: every plugin, in registry order, gets the one event.
pub open spec fn row_model<P: Plugin>(ms: Seq<P::V>, nick: Seq<char>, ev: InboundEventView) -> (
    Seq<P::V>,
    Seq<OutcomeView>,
)
    decreases ms.len(),
{
    if ms.len() == 0 {
        (Seq::empty(), Seq::empty())
    } else {
        let head = invoke_model::<P>(ms[0], nick, ev);
        let rest = row_model::<P>(ms.drop_first(), nick, ev);
        (seq![head.0] + rest.0, seq![head.1] + rest.1)
    }
}

/// A whole run: the events in source order, one round each.
pub open spec fn run_model<P: Plugin>(
    ms: Seq<P::V>,
    nick: Seq<char>,
    evs: Seq<InboundEventView>,
) -> (Seq<P::V>, Seq<Seq<OutcomeView>>)
    decreases evs.len(),
{
    if evs.len() == 0 {
        (ms, Seq::empty())
    } else {
        let row = row_model::<P>(ms, nick, evs[0]);
        let rest = run_model::<P>(row.0, nick, evs.drop_first());
        (rest.0, seq![row.1] + rest.1)
    }
}

/// The registry: a fixed, ordered collection of plugins, built once at
/// startup.
pub struct PluginRegistry<P: Plugin> {
    pub plugins: Vec<P>,
}

impl<P: Plugin> View for PluginRegistry<P> {
    type V = Seq<P::V>;

    open spec fn view(&self) -> Seq<P::V> {
        views_of(self.plugins@)
    }
}

impl<P: Plugin> PluginRegistry<P> {
    pub fn new() -> (reg: PluginRegistry<P>)
        ensures
            reg@ == Seq::<P::V>::empty(),
    {
        let reg = PluginRegistry { plugins: Vec::new() };
        proof {
            assert(reg@ =~= Seq::<P::V>::empty());
        }
        reg
    }

    /// Appends one plugin; only construction does this.
    pub fn register(&mut self, p: P)
        ensures
            final(self)@ == old(self)@.push(p@),
    {
        let ghost pv = p@;
        let ghost before = self@;
        self.plugins.push(p);
        proof {
            assert(self@ =~= before.push(pv));
        }
    }

    pub fn len(&self) -> (n: usize)
        ensures
            n == self@.len(),
    {
        self.plugins.len()
    }
}

/// Runs one (event, plugin) unit of work: the predicate, then the action if
/// it held, with the outcome recorded.
pub fn invoke_plugin<P: Plugin>(p: &mut P, ctx: &Identity, ev: &InboundEvent) -> (o:
    DispatchOutcome)
    ensures
        final(p)@ == invoke_model::<P>(old(p)@, ctx@, ev@).0,
        o@ == invoke_model::<P>(old(p)@, ctx@, ev@).1,
{
    if p.is_allowed(ctx, ev) {
        match p.execute(ctx, ev) {
            Ok(a) => DispatchOutcome::Done(a),
            Err(e) => DispatchOutcome::Failed(e),
        }
    } else {
        DispatchOutcome::Skipped
    }
}

/// Fans one event out to every plugin of the registry, in order, and
/// records one outcome per plugin. A failed invocation stops nothing: the
/// remaining plugins still run.
#[verifier::loop_isolation(false)]
pub fn dispatch_event<P: Plugin>(
    reg: &mut PluginRegistry<P>,
    ctx: &Identity,
    ev: &InboundEvent,
) -> (outs: Vec<DispatchOutcome>)
    ensures
        final(reg)@ == row_model::<P>(old(reg)@, ctx@, ev@).0,
        outs_of(outs@) == row_model::<P>(old(reg)@, ctx@, ev@).1,
{
    let mut outs: Vec<DispatchOutcome> = Vec::new();
    let mut done: Vec<P> = Vec::new();
    proof {
        assert(views_of(done@) =~= Seq::<P::V>::empty());
        assert(outs_of(outs@) =~= Seq::<OutcomeView>::empty());
    }
    while reg.plugins.len() > 0
        invariant
            row_model::<P>(old(reg)@, ctx@, ev@).0 == views_of(done@) + row_model::<P>(
                reg@,
                ctx@,
                ev@,
            ).0,
            row_model::<P>(old(reg)@, ctx@, ev@).1 == outs_of(outs@) + row_model::<P>(
                reg@,
                ctx@,
                ev@,
            ).1,
            outs@.len() == done@.len(),
        decreases reg.plugins@.len(),
    {
        let ghost cur = reg@;
        let ghost donev = views_of(done@);
        let ghost outsv = outs_of(outs@);
        let mut p = reg.plugins.remove(0);
        proof {
            assert(reg@ =~= cur.drop_first());
            assert(p@ == cur[0]);
        }
        let o = invoke_plugin(&mut p, ctx, ev);
        let ghost pv = p@;
        let ghost ov = o@;
        done.push(p);
        outs.push(o);
        proof {
            assert(views_of(done@) =~= donev.push(pv));
            assert(outs_of(outs@) =~= outsv.push(ov));
            let head = invoke_model::<P>(cur[0], ctx@, ev@);
            assert(row_model::<P>(cur, ctx@, ev@).0 == seq![head.0] + row_model::<P>(
                cur.drop_first(),
                ctx@,
                ev@,
            ).0);
            assert(donev + row_model::<P>(cur, ctx@, ev@).0 =~= donev.push(pv) + row_model::<P>(
                cur.drop_first(),
                ctx@,
                ev@,
            ).0);
            assert(outsv + row_model::<P>(cur, ctx@, ev@).1 =~= outsv.push(ov) + row_model::<P>(
                cur.drop_first(),
                ctx@,
                ev@,
            ).1);
        }
    }
    proof {
        assert(reg@ =~= Seq::<P::V>::empty());
        assert(row_model::<P>(reg@, ctx@, ev@).0 =~= Seq::<P::V>::empty());
        assert(row_model::<P>(reg@, ctx@, ev@).1 =~= Seq::<OutcomeView>::empty());
        assert(row_model::<P>(old(reg)@, ctx@, ev@).0 =~= views_of(done@));
        assert(row_model::<P>(old(reg)@, ctx@, ev@).1 =~= outs_of(outs@));
    }
    reg.plugins = done;
    outs
}

/// Pulls the events in source order and dispatches each in turn, keeping
/// one row of outcomes per event.
#[verifier::loop_isolation(false)]
pub fn run_events<P: Plugin>(
    reg: &mut PluginRegistry<P>,
    ctx: &Identity,
    events: &Vec<InboundEvent>,
) -> (log: Vec<Vec<DispatchOutcome>>)
    ensures
        final(reg)@ == run_model::<P>(old(reg)@, ctx@, evs_of(events@)).0,
        log_of(log@) == run_model::<P>(old(reg)@, ctx@, evs_of(events@)).1,
{
    let ghost all = evs_of(events@);
    let mut log: Vec<Vec<DispatchOutcome>> = Vec::new();
    let mut i: usize = 0;
    proof {
        assert(all.subrange(0, all.len() as int) =~= all);
        assert(log_of(log@) =~= Seq::<Seq<OutcomeView>>::empty());
    }
    while i < events.len()
        invariant
            i <= events@.len(),
            all.len() == events@.len(),
            run_model::<P>(old(reg)@, ctx@, all).0 == run_model::<P>(
                reg@,
                ctx@,
                all.subrange(i as int, all.len() as int),
            ).0,
            run_model::<P>(old(reg)@, ctx@, all).1 == log_of(log@) + run_model::<P>(
                reg@,
                ctx@,
                all.subrange(i as int, all.len() as int),
            ).1,
            log@.len() == i,
        decreases events@.len() - i,
    {
        let ghost cur = reg@;
        let ghost logv = log_of(log@);
        let ghost suffix = all.subrange(i as int, all.len() as int);
        let ev = &events[i];
        proof {
            assert(suffix[0] == all[i as int]);
            assert(all[i as int] == events@[i as int]@);
            assert(suffix.drop_first() =~= all.subrange(i + 1 as int, all.len() as int));
        }
        let outs = dispatch_event(reg, ctx, ev);
        let ghost outsv = outs_of(outs@);
        log.push(outs);
        proof {
            assert(log_of(log@) =~= logv.push(outsv));
            let row = row_model::<P>(cur, ctx@, suffix[0]);
            assert(reg@ == row.0);
            assert(outsv == row.1);
            assert(run_model::<P>(cur, ctx@, suffix).0 == run_model::<P>(
                row.0,
                ctx@,
                suffix.drop_first(),
            ).0);
            assert(run_model::<P>(cur, ctx@, suffix).1 == seq![row.1] + run_model::<P>(
                row.0,
                ctx@,
                suffix.drop_first(),
            ).1);
            assert(logv + (seq![row.1] + run_model::<P>(row.0, ctx@, suffix.drop_first()).1)
                =~= logv.push(outsv) + run_model::<P>(row.0, ctx@, suffix.drop_first()).1);
        }
        i = i + 1;
    }
    proof {
        assert(all.subrange(i as int, all.len() as int) =~= Seq::<InboundEventView>::empty());
        assert(run_model::<P>(reg@, ctx@, Seq::<InboundEventView>::empty()).0 == reg@);
        assert(run_model::<P>(old(reg)@, ctx@, all).1 =~= log_of(log@));
    }
    log
}

/// Everything one round guarantees, plugin by plugin: the row has one entry
/// per plugin; entry `i` is the outcome of plugin `i`'s own single
/// invocation; and it is `Skipped` exactly when plugin `i`'s predicate
/// declined the event. In particular every (event, plugin) pair whose
/// predicate holds is executed exactly once, and a pair whose predicate
/// fails is never executed.
pub proof fn lemma_round_exact<P: Plugin>(ms: Seq<P::V>, nick: Seq<char>, ev: InboundEventView)
    ensures
        row_model::<P>(ms, nick, ev).0.len() == ms.len(),
        row_model::<P>(ms, nick, ev).1.len() == ms.len(),
        forall|i: int| 0 <= i < ms.len() ==> #[trigger] row_model::<P>(ms, nick, ev).0[i]
            == invoke_model::<P>(ms[i], nick, ev).0,
        forall|i: int| 0 <= i < ms.len() ==> #[trigger] row_model::<P>(ms, nick, ev).1[i]
            == invoke_model::<P>(ms[i], nick, ev).1,
        forall|i: int| 0 <= i < ms.len() ==> ((#[trigger] row_model::<P>(ms, nick, ev).1[i])
            is Skipped <==> !P::allows(ms[i], nick, ev)),
    decreases ms.len(),
{
    if ms.len() > 0 {
        lemma_round_exact::<P>(ms.drop_first(), nick, ev);
        let head = invoke_model::<P>(ms[0], nick, ev);
        let rest = row_model::<P>(ms.drop_first(), nick, ev);
        assert forall|i: int| 0 <= i < ms.len() implies #[trigger] row_model::<P>(
            ms,
            nick,
            ev,
        ).0[i] == invoke_model::<P>(ms[i], nick, ev).0 && row_model::<P>(ms, nick, ev).1[i]
            == invoke_model::<P>(ms[i], nick, ev).1 by {
            if i > 0 {
                assert(ms.drop_first()[i - 1] == ms[i]);
                assert(rest.0[i - 1] == invoke_model::<P>(ms.drop_first()[i - 1], nick, ev).0);
                assert(rest.1[i - 1] == invoke_model::<P>(ms.drop_first()[i - 1], nick, ev).1);
            }
        }
    }
}

/// One plugin run alone over the same events: its state threads through
/// every round, whatever each outcome was.
pub open spec fn solo_model<P: Plugin>(
    m: P::V,
    nick: Seq<char>,
    evs: Seq<InboundEventView>,
) -> (P::V, Seq<OutcomeView>)
    decreases evs.len(),
{
    if evs.len() == 0 {
        (m, Seq::empty())
    } else {
        let head = invoke_model::<P>(m, nick, evs[0]);
        let rest = solo_model::<P>(head.0, nick, evs.drop_first());
        (rest.0, seq![head.1] + rest.1)
    }
}

/// Failure containment, as independence: plugin `i`'s column of the run
/// log, and its final state, equal what the plugin does run alone over the
/// same events. Nothing another plugin does — succeed, fail, or decline —
/// reaches it; and its own failure on one event never keeps a later event
/// from reaching it, since the solo run continues past every outcome.
pub proof fn lemma_plugin_isolated<P: Plugin>(
    ms: Seq<P::V>,
    nick: Seq<char>,
    evs: Seq<InboundEventView>,
    i: int,
)
    requires
        0 <= i < ms.len(),
    ensures
        run_model::<P>(ms, nick, evs).0.len() == ms.len(),
        run_model::<P>(ms, nick, evs).1.len() == evs.len(),
        forall|k: int| 0 <= k < evs.len() ==> (#[trigger] run_model::<P>(ms, nick, evs).1[k]).len()
            == ms.len(),
        run_model::<P>(ms, nick, evs).0[i] == solo_model::<P>(ms[i], nick, evs).0,
        solo_model::<P>(ms[i], nick, evs).1.len() == evs.len(),
        forall|k: int| 0 <= k < evs.len() ==> (#[trigger] run_model::<P>(ms, nick, evs).1[k])[i]
            == solo_model::<P>(ms[i], nick, evs).1[k],
    decreases evs.len(),
{
    if evs.len() == 0 {
    } else {
        let row = row_model::<P>(ms, nick, evs[0]);
        lemma_round_exact::<P>(ms, nick, evs[0]);
        let head = invoke_model::<P>(ms[i], nick, evs[0]);
        assert(row.0[i] == head.0);
        assert(row.1[i] == head.1);
        lemma_plugin_isolated::<P>(row.0, nick, evs.drop_first(), i);
        assert(run_model::<P>(row.0, nick, evs.drop_first()).0[i] == solo_model::<P>(
            row.0[i],
            nick,
            evs.drop_first(),
        ).0);
        assert forall|k: int| 0 <= k < evs.len() implies (#[trigger] run_model::<P>(
            ms,
            nick,
            evs,
        ).1[k])[i] == solo_model::<P>(ms[i], nick, evs).1[k] by {
            if k > 0 {
                assert(run_model::<P>(ms, nick, evs).1[k] == run_model::<P>(
                    row.0,
                    nick,
                    evs.drop_first(),
                ).1[k - 1]);
                assert(solo_model::<P>(ms[i], nick, evs).1[k] == solo_model::<P>(
                    head.0,
                    nick,
                    evs.drop_first(),
                ).1[k - 1]);
            }
        }
    }
}

/// Intake order: running the source sequence with one more event appended
/// replays the earlier rounds unchanged, in order, and then plays the new
/// event's round last — event `k` is taken up before event `k + 1`, always.
pub proof fn lemma_intake_in_order<P: Plugin>(
    ms: Seq<P::V>,
    nick: Seq<char>,
    evs: Seq<InboundEventView>,
    e: InboundEventView,
)
    ensures
        run_model::<P>(ms, nick, evs.push(e)).1 == run_model::<P>(ms, nick, evs).1.push(
            row_model::<P>(run_model::<P>(ms, nick, evs).0, nick, e).1,
        ),
        run_model::<P>(ms, nick, evs.push(e)).0 == row_model::<P>(
            run_model::<P>(ms, nick, evs).0,
            nick,
            e,
        ).0,
    decreases evs.len(),
{
    let one = evs.push(e);
    if evs.len() == 0 {
        let row = row_model::<P>(ms, nick, e);
        assert(one[0] == e);
        assert(one.drop_first() =~= Seq::<InboundEventView>::empty());
        assert(run_model::<P>(row.0, nick, one.drop_first()).0 == row.0);
        assert(run_model::<P>(row.0, nick, one.drop_first()).1 == Seq::<Seq<OutcomeView>>::empty());
        assert(run_model::<P>(ms, nick, one).0 == row.0);
        assert(run_model::<P>(ms, nick, one).1 == seq![row.1] + Seq::<Seq<OutcomeView>>::empty());
        assert(run_model::<P>(ms, nick, evs).0 == ms);
        assert(run_model::<P>(ms, nick, evs).1.push(row.1) =~= run_model::<P>(ms, nick, one).1);
    } else {
        let row = row_model::<P>(ms, nick, evs[0]);
        assert(one[0] == evs[0]);
        assert(one.drop_first() =~= evs.drop_first().push(e));
        lemma_intake_in_order::<P>(row.0, nick, evs.drop_first(), e);
        assert(run_model::<P>(ms, nick, one).0 == run_model::<P>(row.0, nick, one.drop_first()).0);
        assert(run_model::<P>(ms, nick, one).1 == seq![row.1] + run_model::<P>(
            row.0,
            nick,
            one.drop_first(),
        ).1);
        assert(run_model::<P>(ms, nick, evs).0 == run_model::<P>(row.0, nick, evs.drop_first()).0);
        assert(run_model::<P>(ms, nick, evs).1 == seq![row.1] + run_model::<P>(
            row.0,
            nick,
            evs.drop_first(),
        ).1);
        assert(run_model::<P>(ms, nick, one).1 =~= run_model::<P>(ms, nick, evs).1.push(
            row_model::<P>(run_model::<P>(ms, nick, evs).0, nick, e).1,
        ));
    }
}

} // verus!
