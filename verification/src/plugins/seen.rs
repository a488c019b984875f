//! Remembers who joined and parted, and answers `!seen <name>`.

use vstd::prelude::*;
use vstd::string::*;
use crate::action::{Action, ActionView, PluginError};
use crate::event::{EventKind, EventKindView, Identity, InboundEvent, InboundEventView};
use crate::plugin::Plugin;
use crate::text::{capture_spec, chars_eq, find_capture, string_of_range, to_chars, CharClass};

verus! {

/// One sighting: a name, when it joined, and when it parted if it did.
#[derive(Debug, Clone, PartialEq, Eq)]
pub struct User {
    pub name: String,
    pub joined_at: String,
    pub parted_at: Option<String>,
}

pub struct UserView {
    pub name: Seq<char>,
    pub joined_at: Seq<char>,
    pub parted_at: Option<Seq<char>>,
}

impl View for User {
    type V = UserView;

    open spec fn view(&self) -> UserView {
        UserView {
            name: self.name@,
            joined_at: self.joined_at@,
            parted_at: match &self.parted_at {
                Some(p) => Some(p@),
                None => None,
            },
        }
    }
}

/// The line the bot says about a sighting.
pub open spec fn user_line(u: UserView) -> Seq<char> {
    match u.parted_at {
        Some(p) => u.name + " joined here on "@ + u.joined_at + " and parted on "@ + p,
        None => u.name + " joined here on "@ + u.joined_at,
    }
}

impl User {
    /// Renders the sighting as the line the bot says.
    pub fn describe(&self) -> (s: String)
        ensures
            s@ == user_line(self@),
    {
        let mut s = self.name.clone();
        s.append(" joined here on ");
        s.append(self.joined_at.as_str());
        match &self.parted_at {
            Some(p) => {
                s.append(" and parted on ");
                s.append(p.as_str());
            },
            None => (),
        }
        s
    }
}

/// The name asked about in a `!seen` request, if the line holds one.
pub open spec fn seen_capture(text: Seq<char>) -> Option<Seq<char>> {
    capture_spec(text, "!seen "@, CharClass::NotNewline)
}

/// The first recorded sighting of `name`, if any.
pub open spec fn find_user(users: Seq<UserView>, name: Seq<char>) -> Option<int>
    decreases users.len(),
{
    if users.len() == 0 {
        None
    } else if users[0].name == name {
        Some(0)
    } else {
        match find_user(users.drop_first(), name) {
            Some(j) => Some(j + 1),
            None => None,
        }
    }
}

pub proof fn lemma_find_user(users: Seq<UserView>, name: Seq<char>)
    ensures
        match find_user(users, name) {
            Some(j) => 0 <= j < users.len() && users[j].name == name && forall|k: int|
                0 <= k < j ==> users[k].name != name,
            None => forall|k: int| 0 <= k < users.len() ==> users[k].name != name,
        },
    decreases users.len(),
{
    if users.len() > 0 && users[0].name != name {
        lemma_find_user(users.drop_first(), name);
        match find_user(users.drop_first(), name) {
            Some(j0) => {
                assert(users.drop_first()[j0] == users[j0 + 1]);
                assert forall|k: int| 0 <= k < j0 + 1 implies users[k].name != name by {
                    if k > 0 {
                        assert(users.drop_first()[k - 1] == users[k]);
                    }
                }
            },
            None => {
                assert forall|k: int| 0 <= k < users.len() implies users[k].name != name by {
                    if k > 0 {
                        assert(users.drop_first()[k - 1] == users[k]);
                    }
                }
            },
        }
    }
}

/// The state after someone named in `source` joins at `stamp`: recorded once,
/// unless an identical sighting is already present.
pub open spec fn join_model(
    users: Seq<UserView>,
    source: Option<Seq<char>>,
    stamp: Seq<char>,
) -> Seq<UserView> {
    match source {
        Some(n) => {
            let u = UserView { name: n, joined_at: stamp, parted_at: None };
            if users.contains(u) {
                users
            } else {
                users.push(u)
            }
        },
        None => users,
    }
}

/// The state after someone named in `source` parts at `stamp`: the first
/// sighting of that name, if any, gets its parting time set.
pub open spec fn part_model(
    users: Seq<UserView>,
    source: Option<Seq<char>>,
    stamp: Seq<char>,
) -> Seq<UserView> {
    match source {
        Some(n) => match find_user(users, n) {
            Some(i) => users.update(i, UserView { parted_at: Some(stamp), ..users[i] }),
            None => users,
        },
        None => users,
    }
}

/// What the bot answers to a chat line, from its current sightings.
pub open spec fn seen_chat_action(
    users: Seq<UserView>,
    nick: Seq<char>,
    source: Option<Seq<char>>,
    target: Seq<char>,
    text: Seq<char>,
) -> ActionView {
    match seen_capture(text) {
        None => ActionView::Idle,
        Some(name) => if name == nick {
            ActionView::Send { target, text: "That's me!"@ }
        } else if source is Some && name == source->Some_0 {
            ActionView::Send { target, text: "That's you!"@ }
        } else {
            match find_user(users, name) {
                Some(i) => ActionView::Send { target, text: user_line(users[i]) },
                None => ActionView::Send { target, text: "I haven't seen "@ + name },
            }
        },
    }
}

/// The sighting log, keyed by who the transport says spoke.
pub struct Seen {
    pub users: Vec<User>,
}

impl View for Seen {
    type V = Seq<UserView>;

    open spec fn view(&self) -> Seq<UserView> {
        self.users@.map_values(|u: User| u@)
    }
}

impl Seen {
    pub fn new() -> (p: Seen)
        ensures
            p@ == Seq::<UserView>::empty(),
    {
        let p = Seen { users: Vec::new() };
        proof {
            assert(p@ =~= Seq::<UserView>::empty());
        }
        p
    }

    /// The name a `!seen` request asks about, if the line holds one.
    pub fn grep_username(&self, msg: &str) -> (r: Option<String>)
        ensures
            match seen_capture(msg@) {
                Some(c) => r is Some && r->Some_0@ == c,
                None => r is None,
            },
    {
        let v = to_chars(msg);
        let cmd = to_chars("!seen ");
        match find_capture(&v, &cmd, CharClass::NotNewline) {
            Some((a, b)) => Some(string_of_range(&v, a, b)),
            None => None,
        }
    }

    fn user_eq(a: &User, b: &User) -> (r: bool)
        ensures
            r == (a@ == b@),
    {
        let names = {
            let an = to_chars(a.name.as_str());
            let bn = to_chars(b.name.as_str());
            chars_eq(&an, &bn)
        };
        let joins = {
            let aj = to_chars(a.joined_at.as_str());
            let bj = to_chars(b.joined_at.as_str());
            chars_eq(&aj, &bj)
        };
        let parts = match (&a.parted_at, &b.parted_at) {
            (Some(ap), Some(bp)) => {
                let av = to_chars(ap.as_str());
                let bv = to_chars(bp.as_str());
                chars_eq(&av, &bv)
            },
            (None, None) => true,
            _ => false,
        };
        names && joins && parts
    }

    fn joined(&mut self, source: &Option<String>, stamp: &String)
        ensures
            final(self)@ == join_model(
                old(self)@,
                match source {
                    Some(s) => Some(s@),
                    None => None,
                },
                stamp@,
            ),
    {
        let n = match source {
            Some(s) => s.clone(),
            None => {
                return ;
            },
        };
        let u = User { name: n, joined_at: stamp.clone(), parted_at: None };
        let ghost uv = u@;
        let mut i: usize = 0;
        let mut present = false;
        while i < self.users.len()
            invariant
                i <= self.users@.len(),
                present == exists|k: int| 0 <= k < i && self@[k] == uv,
                uv == u@,
            decreases self.users@.len() - i,
        {
            if Self::user_eq(&self.users[i], &u) {
                proof {
                    assert(self@[i as int] == self.users@[i as int]@);
                    assert(self@[i as int] == uv);
                }
                present = true;
            }
            i = i + 1;
        }
        if !present {
            proof {
                assert(!self@.contains(uv));
            }
            let ghost before = self@;
            self.users.push(u);
            proof {
                assert(self@ =~= before.push(uv));
            }
        } else {
            proof {
                assert(self@.contains(uv));
            }
        }
    }

    #[verifier::loop_isolation(false)]
    fn parted(&mut self, source: &Option<String>, stamp: &String)
        ensures
            final(self)@ == part_model(
                old(self)@,
                match source {
                    Some(s) => Some(s@),
                    None => None,
                },
                stamp@,
            ),
    {
        let n = match source {
            Some(s) => s.clone(),
            None => {
                return ;
            },
        };
        let nc = to_chars(n.as_str());
        let mut i: usize = 0;
        while i < self.users.len()
            invariant
                i <= self.users@.len(),
                nc@ == n@,
                self.users@ == old(self).users@,
                forall|k: int| 0 <= k < i ==> self@[k].name != n@,
            decreases self.users@.len() - i,
        {
            let un = to_chars(self.users[i].name.as_str());
            if chars_eq(&un, &nc) {
                proof {
                    assert(self@[i as int] == self.users@[i as int]@);
                    assert(self@[i as int].name == n@);
                    lemma_find_user(self@, n@);
                    match find_user(self@, n@) {
                        Some(j) => {
                            if j < i {
                                assert(self@[j].name != n@);
                                assert(false);
                            } else if j > i {
                                assert(self@[i as int].name != n@);
                                assert(false);
                            }
                        },
                        None => {
                            assert(self@[i as int].name != n@);
                            assert(false);
                        },
                    }
                    assert(find_user(self@, n@) == Some(i as int));
                }
                let ghost before = self@;
                let ghost beforeu = self.users@;
                let nm = {
                    let r = &self.users[i];
                    r.name.clone()
                };
                let ja = {
                    let r = &self.users[i];
                    r.joined_at.clone()
                };
                let u = User { name: nm, joined_at: ja, parted_at: Some(stamp.clone()) };
                let ghost uv = u@;
                crate::text::vec_set(&mut self.users, i, u);
                proof {
                    assert(before[i as int] == beforeu[i as int]@);
                    assert(uv == (UserView { parted_at: Some(stamp@), ..before[i as int] }));
                    let expect = before.update(
                        i as int,
                        UserView { parted_at: Some(stamp@), ..before[i as int] },
                    );
                    assert forall|k: int| 0 <= k < self@.len() implies self@[k] == expect[k] by {
                        assert(self@[k] == self.users@[k]@);
                        if k != i {
                            assert(self.users@[k] == beforeu[k]);
                            assert(before[k] == beforeu[k]@);
                        }
                    }
                    assert(self@ =~= expect);
                }
                return ;
            }
            i = i + 1;
        }
        proof {
            lemma_find_user(self@, n@);
            if find_user(self@, n@) is Some {
                let j = find_user(self@, n@)->Some_0;
                assert(self@[j].name != n@);
            }
        }
    }

    #[verifier::loop_isolation(false)]
    fn seen(&self, ctx: &Identity, source: &Option<String>, target: &String, text: &String) -> (r:
        Action)
        ensures
            r@ == seen_chat_action(
                self@,
                ctx@,
                match source {
                    Some(s) => Some(s@),
                    None => None,
                },
                target@,
                text@,
            ),
    {
        let v = to_chars(text.as_str());
        let cmd = to_chars("!seen ");
        let (a, b) = match find_capture(&v, &cmd, CharClass::NotNewline) {
            Some(bounds) => bounds,
            None => {
                return Action::Idle;
            },
        };
        let name = crate::text::sub_chars(&v, a, b);
        let nickc = to_chars(ctx.nickname.as_str());
        if chars_eq(&name, &nickc) {
            return Action::Send { target: target.clone(), text: String::from_str("That's me!") };
        }
        match source {
            Some(s) => {
                let sc = to_chars(s.as_str());
                if chars_eq(&name, &sc) {
                    return Action::Send {
                        target: target.clone(),
                        text: String::from_str("That's you!"),
                    };
                }
            },
            None => (),
        }
        let mut i: usize = 0;
        while i < self.users.len()
            invariant
                i <= self.users@.len(),
                name@ == seen_capture(text@)->Some_0,
                forall|k: int| 0 <= k < i ==> self@[k].name != name@,
            decreases self.users@.len() - i,
        {
            let un = to_chars(self.users[i].name.as_str());
            if chars_eq(&un, &name) {
                proof {
                    assert(self@[i as int] == self.users@[i as int]@);
                    assert(self@[i as int].name == name@);
                    lemma_find_user(self@, name@);
                    match find_user(self@, name@) {
                        Some(j) => {
                            if j < i {
                                assert(self@[j].name != name@);
                                assert(false);
                            } else if j > i {
                                assert(self@[i as int].name != name@);
                                assert(false);
                            }
                        },
                        None => {
                            assert(self@[i as int].name != name@);
                            assert(false);
                        },
                    }
                    assert(find_user(self@, name@) == Some(i as int));
                }
                let line = self.users[i].describe();
                return Action::Send { target: target.clone(), text: line };
            }
            i = i + 1;
        }
        proof {
            lemma_find_user(self@, name@);
            if find_user(self@, name@) is Some {
                let j = find_user(self@, name@)->Some_0;
                assert(self@[j].name != name@);
            }
        }
        let mut t = String::from_str("I haven't seen ");
        let ns = crate::text::chars_to_string(&name);
        t.append(ns.as_str());
        Action::Send { target: target.clone(), text: t }
    }
}

impl Plugin for Seen {
    /// Wants every event: joins and parts feed the log, chat may ask.
    open spec fn allows(m: Seq<UserView>, nick: Seq<char>, ev: InboundEventView) -> bool {
        true
    }

    /// Joins and parts update the log; a chat line is answered from it.
    open spec fn step(m: Seq<UserView>, nick: Seq<char>, ev: InboundEventView) -> (Seq<UserView>,
    Result<ActionView, PluginError>) {
        match ev.kind {
            EventKindView::Chat { target, text } => (
                m,
                Ok(seen_chat_action(m, nick, ev.source, target, text)),
            ),
            EventKindView::Join => (join_model(m, ev.source, ev.stamp), Ok(ActionView::Idle)),
            EventKindView::Part => (part_model(m, ev.source, ev.stamp), Ok(ActionView::Idle)),
            EventKindView::Other => (m, Ok(ActionView::Idle)),
        }
    }

    fn is_allowed(&self, ctx: &Identity, ev: &InboundEvent) -> (b: bool) {
        true
    }

    fn execute(&mut self, ctx: &Identity, ev: &InboundEvent) -> (r: Result<Action, PluginError>) {
        match &ev.kind {
            EventKind::Chat { target, text } => {
                let act = self.seen(ctx, &ev.source, target, text);
                Ok(act)
            },
            EventKind::Join => {
                self.joined(&ev.source, &ev.stamp);
                Ok(Action::Idle)
            },
            EventKind::Part => {
                self.parted(&ev.source, &ev.stamp);
                Ok(Action::Idle)
            },
            EventKind::Other => Ok(Action::Idle),
        }
    }
}

} // verus!
