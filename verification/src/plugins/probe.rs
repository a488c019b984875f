//! Minimal plugins that exercise the dispatch core: an echo, a per-user
//! counter, and one whose action always fails.

use vstd::prelude::*;
use vstd::string::*;
use crate::action::{Action, ActionView, PluginError};
use crate::event::{EventKind, EventKindView, Identity, InboundEvent, InboundEventView};
use crate::plugin::Plugin;
use crate::plugins::h::source_or_empty;
use crate::text::{chars_eq, to_chars};

verus! {

/// Answers `pong` to the chat lines that say exactly `ping`.
pub struct EchoPlugin {}

impl View for EchoPlugin {
    type V = ();

    open spec fn view(&self) -> () {
        ()
    }
}

impl EchoPlugin {
    pub fn new() -> (p: EchoPlugin)
        ensures
            p@ == (),
    {
        EchoPlugin {  }
    }
}

impl Plugin for EchoPlugin {
    open spec fn allows(m: (), nick: Seq<char>, ev: InboundEventView) -> bool {
        match ev.kind {
            EventKindView::Chat { target, text } => text == "ping"@,
            _ => false,
        }
    }

    open spec fn step(m: (), nick: Seq<char>, ev: InboundEventView) -> ((), Result<
        ActionView,
        PluginError,
    >) {
        match ev.kind {
            EventKindView::Chat { target, text } => (
                (),
                Ok(ActionView::Send { target, text: "pong"@ }),
            ),
            _ => ((), Ok(ActionView::Idle)),
        }
    }

    fn is_allowed(&self, ctx: &Identity, ev: &InboundEvent) -> (b: bool) {
        match &ev.kind {
            EventKind::Chat { target: _, text } => {
                let tc = to_chars(text.as_str());
                let ping = to_chars("ping");
                chars_eq(&tc, &ping)
            },
            _ => false,
        }
    }

    fn execute(&mut self, ctx: &Identity, ev: &InboundEvent) -> (r: Result<Action, PluginError>) {
        match &ev.kind {
            EventKind::Chat { target, text: _ } => Ok(
                Action::Send { target: target.clone(), text: String::from_str("pong") },
            ),
            _ => Ok(Action::Idle),
        }
    }
}

/// One per-user tally.
#[derive(Debug, Clone, PartialEq, Eq)]
pub struct CountEntry {
    pub name: String,
    pub count: u64,
}

pub struct CountEntryView {
    pub name: Seq<char>,
    pub count: u64,
}

impl View for CountEntry {
    type V = CountEntryView;

    open spec fn view(&self) -> CountEntryView {
        CountEntryView { name: self.name@, count: self.count }
    }
}

/// The first tally of `name`, if any.
pub open spec fn find_count(counts: Seq<CountEntryView>, name: Seq<char>) -> Option<int>
    decreases counts.len(),
{
    if counts.len() == 0 {
        None
    } else if counts[0].name == name {
        Some(0)
    } else {
        match find_count(counts.drop_first(), name) {
            Some(j) => Some(j + 1),
            None => None,
        }
    }
}

pub proof fn lemma_find_count(counts: Seq<CountEntryView>, name: Seq<char>)
    ensures
        match find_count(counts, name) {
            Some(j) => 0 <= j < counts.len() && counts[j].name == name && forall|k: int|
                0 <= k < j ==> counts[k].name != name,
            None => forall|k: int| 0 <= k < counts.len() ==> counts[k].name != name,
        },
    decreases counts.len(),
{
    if counts.len() > 0 && counts[0].name != name {
        lemma_find_count(counts.drop_first(), name);
        match find_count(counts.drop_first(), name) {
            Some(j0) => {
                assert(counts.drop_first()[j0] == counts[j0 + 1]);
                assert forall|k: int| 0 <= k < j0 + 1 implies counts[k].name != name by {
                    if k > 0 {
                        assert(counts.drop_first()[k - 1] == counts[k]);
                    }
                }
            },
            None => {
                assert forall|k: int| 0 <= k < counts.len() implies counts[k].name != name by {
                    if k > 0 {
                        assert(counts.drop_first()[k - 1] == counts[k]);
                    }
                }
            },
        }
    }
}

/// The tallies after one more chat line from `name`: the existing tally goes
/// up by one (stopping at the machine-word ceiling), or a fresh tally of one
/// is added.
pub open spec fn bump_model(
    counts: Seq<CountEntryView>,
    name: Seq<char>,
) -> Seq<CountEntryView> {
    match find_count(counts, name) {
        Some(i) => counts.update(
            i,
            CountEntryView {
                name: counts[i].name,
                count: if counts[i].count < u64::MAX {
                    (counts[i].count + 1) as u64
                } else {
                    counts[i].count
                },
            },
        ),
        None => counts.push(CountEntryView { name, count: 1 }),
    }
}

/// Tallies every chat event by its speaker; never gates and never answers.
pub struct CounterPlugin {
    pub counts: Vec<CountEntry>,
}

impl View for CounterPlugin {
    type V = Seq<CountEntryView>;

    open spec fn view(&self) -> Seq<CountEntryView> {
        self.counts@.map_values(|c: CountEntry| c@)
    }
}

impl CounterPlugin {
    pub fn new() -> (p: CounterPlugin)
        ensures
            p@ == Seq::<CountEntryView>::empty(),
    {
        let p = CounterPlugin { counts: Vec::new() };
        proof {
            assert(p@ =~= Seq::<CountEntryView>::empty());
        }
        p
    }

    /// The tally recorded for `name`, or zero.
    #[verifier::loop_isolation(false)]
    pub fn count_of(&self, name: &str) -> (r: u64)
        ensures
            r == match find_count(self@, name@) {
                Some(i) => self@[i].count,
                None => 0u64,
            },
    {
        let nc = to_chars(name);
        let mut i: usize = 0;
        while i < self.counts.len()
            invariant
                i <= self.counts@.len(),
                forall|k: int| 0 <= k < i ==> self@[k].name != name@,
            decreases self.counts@.len() - i,
        {
            let un = to_chars(self.counts[i].name.as_str());
            if chars_eq(&un, &nc) {
                proof {
                    assert(self@[i as int] == self.counts@[i as int]@);
                    lemma_find_count(self@, name@);
                    match find_count(self@, name@) {
                        Some(j) => {
                            if j < i {
                                assert(self@[j].name != name@);
                                assert(false);
                            } else if j > i {
                                assert(self@[i as int].name != name@);
                                assert(false);
                            }
                        },
                        None => {
                            assert(self@[i as int].name != name@);
                            assert(false);
                        },
                    }
                }
                let r = {
                    let e = &self.counts[i];
                    e.count
                };
                return r;
            }
            i = i + 1;
        }
        proof {
            lemma_find_count(self@, name@);
            if find_count(self@, name@) is Some {
                let j = find_count(self@, name@)->Some_0;
                assert(self@[j].name != name@);
            }
        }
        0
    }
}

impl Plugin for CounterPlugin {
    /// Wants every chat event, with no gating.
    open spec fn allows(m: Seq<CountEntryView>, nick: Seq<char>, ev: InboundEventView) -> bool {
        ev.kind is Chat
    }

    /// Bumps the speaker's tally; answers nothing.
    open spec fn step(m: Seq<CountEntryView>, nick: Seq<char>, ev: InboundEventView) -> (Seq<
        CountEntryView,
    >, Result<ActionView, PluginError>) {
        match ev.kind {
            EventKindView::Chat { target, text } => (
                bump_model(m, source_or_empty(ev.source)),
                Ok(ActionView::Idle),
            ),
            _ => (m, Ok(ActionView::Idle)),
        }
    }

    fn is_allowed(&self, ctx: &Identity, ev: &InboundEvent) -> (b: bool) {
        match &ev.kind {
            EventKind::Chat { .. } => true,
            _ => false,
        }
    }

    #[verifier::loop_isolation(false)]
    fn execute(&mut self, ctx: &Identity, ev: &InboundEvent) -> (r: Result<Action, PluginError>) {
        match &ev.kind {
            EventKind::Chat { .. } => {
                let name = match &ev.source {
                    Some(s) => s.clone(),
                    None => String::new(),
                };
                let nc = to_chars(name.as_str());
                let mut i: usize = 0;
                while i < self.counts.len()
                    invariant
                        i <= self.counts@.len(),
                        self.counts@ == old(self).counts@,
                        forall|k: int| 0 <= k < i ==> self@[k].name != name@,
                    decreases self.counts@.len() - i,
                {
                    let un = to_chars(self.counts[i].name.as_str());
                    if chars_eq(&un, &nc) {
                        proof {
                            assert(self@[i as int] == self.counts@[i as int]@);
                            lemma_find_count(self@, name@);
                            match find_count(self@, name@) {
                                Some(j) => {
                                    if j < i {
                                        assert(self@[j].name != name@);
                                        assert(false);
                                    } else if j > i {
                                        assert(self@[i as int].name != name@);
                                        assert(false);
                                    }
                                },
                                None => {
                                    assert(self@[i as int].name != name@);
                                    assert(false);
                                },
                            }
                        }
                        let ghost before = self@;
                        let ghost beforeu = self.counts@;
                        let old_count = {
                            let e = &self.counts[i];
                            e.count
                        };
                        let new_count = if old_count < u64::MAX {
                            old_count + 1
                        } else {
                            old_count
                        };
                        let nm = {
                            let e = &self.counts[i];
                            e.name.clone()
                        };
                        let entry = CountEntry { name: nm, count: new_count };
                        let ghost ev2 = entry@;
                        crate::text::vec_set(&mut self.counts, i, entry);
                        proof {
                            let expect = bump_model(before, name@);
                            assert forall|k: int| 0 <= k < self@.len() implies self@[k]
                                == expect[k] by {
                                assert(self@[k] == self.counts@[k]@);
                                if k != i {
                                    assert(self.counts@[k] == beforeu[k]);
                                    assert(before[k] == beforeu[k]@);
                                }
                            }
                            assert(self@ =~= expect);
                        }
                        return Ok(Action::Idle);
                    }
                    i = i + 1;
                }
                proof {
                    lemma_find_count(self@, name@);
                    if find_count(self@, name@) is Some {
                        let j = find_count(self@, name@)->Some_0;
                        assert(self@[j].name != name@);
                    }
                }
                let entry = CountEntry { name, count: 1 };
                let ghost ev2 = entry@;
                let ghost before = self@;
                self.counts.push(entry);
                proof {
                    assert(self@ =~= before.push(ev2));
                }
                Ok(Action::Idle)
            },
            _ => Ok(Action::Idle),
        }
    }
}

/// Wants everything, and always fails: what failure containment is shown
/// against.
pub struct FailingPlugin {}

impl View for FailingPlugin {
    type V = ();

    open spec fn view(&self) -> () {
        ()
    }
}

impl FailingPlugin {
    pub fn new() -> (p: FailingPlugin)
        ensures
            p@ == (),
    {
        FailingPlugin {  }
    }
}

impl Plugin for FailingPlugin {
    open spec fn allows(m: (), nick: Seq<char>, ev: InboundEventView) -> bool {
        true
    }

    open spec fn step(m: (), nick: Seq<char>, ev: InboundEventView) -> ((), Result<
        ActionView,
        PluginError,
    >) {
        ((), Err(PluginError::Failure))
    }

    fn is_allowed(&self, ctx: &Identity, ev: &InboundEvent) -> (b: bool) {
        true
    }

    fn execute(&mut self, ctx: &Identity, ev: &InboundEvent) -> (r: Result<Action, PluginError>) {
        Err(PluginError::Failure)
    }
}

} // verus!
