//! Associates chat names with scrobbling accounts and answers `!lastsong`.

use vstd::prelude::*;
use vstd::string::*;
use crate::action::{Action, ActionView, PluginError, QueryRequest, QueryRequestView};
use crate::event::{EventKind, EventKindView, Identity, InboundEvent, InboundEventView};
use crate::plugin::Plugin;
use crate::text::{capture_spec, chars_eq, find_capture, string_of_range, to_chars, CharClass};

verus! {

/// One association between a chat name and a scrobbling account.
#[derive(Debug, Clone, PartialEq, Eq)]
pub struct LastFMUser {
    pub irc_username: String,
    pub lastfm_username: String,
}

pub struct LastFMUserView {
    pub irc_username: Seq<char>,
    pub lastfm_username: Seq<char>,
}

impl View for LastFMUser {
    type V = LastFMUserView;

    open spec fn view(&self) -> LastFMUserView {
        LastFMUserView {
            irc_username: self.irc_username@,
            lastfm_username: self.lastfm_username@,
        }
    }
}

/// The account name in an `!addlastfmuser` request, if the line holds one.
pub open spec fn add_capture(text: Seq<char>) -> Option<Seq<char>> {
    capture_spec(text, "!addlastfmuser "@, CharClass::NotNewline)
}

/// The first association of the chat name `irc`, if any.
pub open spec fn find_assoc(users: Seq<LastFMUserView>, irc: Seq<char>) -> Option<int>
    decreases users.len(),
{
    if users.len() == 0 {
        None
    } else if users[0].irc_username == irc {
        Some(0)
    } else {
        match find_assoc(users.drop_first(), irc) {
            Some(j) => Some(j + 1),
            None => None,
        }
    }
}

pub proof fn lemma_find_assoc(users: Seq<LastFMUserView>, irc: Seq<char>)
    ensures
        match find_assoc(users, irc) {
            Some(j) => 0 <= j < users.len() && users[j].irc_username == irc && forall|k: int|
                0 <= k < j ==> users[k].irc_username != irc,
            None => forall|k: int| 0 <= k < users.len() ==> users[k].irc_username != irc,
        },
    decreases users.len(),
{
    if users.len() > 0 && users[0].irc_username != irc {
        lemma_find_assoc(users.drop_first(), irc);
        match find_assoc(users.drop_first(), irc) {
            Some(j0) => {
                assert(users.drop_first()[j0] == users[j0 + 1]);
                assert forall|k: int| 0 <= k < j0 + 1 implies users[k].irc_username != irc by {
                    if k > 0 {
                        assert(users.drop_first()[k - 1] == users[k]);
                    }
                }
            },
            None => {
                assert forall|k: int| 0 <= k < users.len() implies users[k].irc_username != irc by {
                    if k > 0 {
                        assert(users.drop_first()[k - 1] == users[k]);
                    }
                }
            },
        }
    }
}

/// The associations after the chat name `n` registers account `lfm`: any
/// earlier association of `n` is dropped, and the new one goes to the back.
pub open spec fn add_model(
    users: Seq<LastFMUserView>,
    n: Seq<char>,
    lfm: Seq<char>,
) -> Seq<LastFMUserView> {
    let u = LastFMUserView { irc_username: n, lastfm_username: lfm };
    match find_assoc(users, n) {
        Some(i) => users.remove(i).push(u),
        None => users.push(u),
    }
}

/// The account asked about for requester `n`: the registered association,
/// or the chat name itself when none is registered.
pub open spec fn lookup_model(users: Seq<LastFMUserView>, n: Seq<char>) -> Seq<char> {
    match find_assoc(users, n) {
        Some(i) => users[i].lastfm_username,
        None => n,
    }
}

/// The line confirming a new association.
pub open spec fn added_line(n: Seq<char>, lfm: Seq<char>) -> Seq<char> {
    n + " is now associated to the LastFM user "@ + lfm
}

/// The association table, filled by `!addlastfmuser` requests.
pub struct LastFM {
    pub users: Vec<LastFMUser>,
}

impl View for LastFM {
    type V = Seq<LastFMUserView>;

    open spec fn view(&self) -> Seq<LastFMUserView> {
        self.users@.map_values(|u: LastFMUser| u@)
    }
}

impl LastFM {
    pub fn new() -> (p: LastFM)
        ensures
            p@ == Seq::<LastFMUserView>::empty(),
    {
        let p = LastFM { users: Vec::new() };
        proof {
            assert(p@ =~= Seq::<LastFMUserView>::empty());
        }
        p
    }

    /// The account name an `!addlastfmuser` request carries, if any.
    pub fn grep_username(&self, msg: &str) -> (r: Option<String>)
        ensures
            match add_capture(msg@) {
                Some(c) => r is Some && r->Some_0@ == c,
                None => r is None,
            },
    {
        let v = to_chars(msg);
        let cmd = to_chars("!addlastfmuser ");
        match find_capture(&v, &cmd, CharClass::NotNewline) {
            Some((a, b)) => Some(string_of_range(&v, a, b)),
            None => None,
        }
    }

    /// The first registered association of `n`, if any.
    #[verifier::loop_isolation(false)]
    fn find_index(&self, n: &String) -> (r: Option<usize>)
        ensures
            match r {
                Some(i) => i < self.users@.len() && find_assoc(self@, n@) == Some(i as int),
                None => find_assoc(self@, n@) is None,
            },
    {
        let nc = to_chars(n.as_str());
        let mut i: usize = 0;
        while i < self.users.len()
            invariant
                i <= self.users@.len(),
                forall|k: int| 0 <= k < i ==> self@[k].irc_username != n@,
            decreases self.users@.len() - i,
        {
            let un = to_chars(self.users[i].irc_username.as_str());
            if chars_eq(&un, &nc) {
                proof {
                    assert(self@[i as int] == self.users@[i as int]@);
                    assert(self@[i as int].irc_username == n@);
                    lemma_find_assoc(self@, n@);
                    match find_assoc(self@, n@) {
                        Some(j) => {
                            if j < i {
                                assert(self@[j].irc_username != n@);
                                assert(false);
                            } else if j > i {
                                assert(self@[i as int].irc_username != n@);
                                assert(false);
                            }
                        },
                        None => {
                            assert(self@[i as int].irc_username != n@);
                            assert(false);
                        },
                    }
                }
                return Some(i);
            }
            i = i + 1;
        }
        proof {
            lemma_find_assoc(self@, n@);
            if find_assoc(self@, n@) is Some {
                let j = find_assoc(self@, n@)->Some_0;
                assert(self@[j].irc_username != n@);
            }
        }
        None
    }

    /// Registers the association `n -> lfm` and confirms it toward `target`.
    fn add_user(&mut self, n: &String, lfm: &String, target: &String) -> (r: Action)
        ensures
            final(self)@ == add_model(old(self)@, n@, lfm@),
            r@ == (ActionView::Send { target: target@, text: added_line(n@, lfm@) }),
    {
        let u = LastFMUser { irc_username: n.clone(), lastfm_username: lfm.clone() };
        let ghost uv = u@;
        match self.find_index(n) {
            Some(i) => {
                let ghost before = self@;
                let ghost beforeu = self.users@;
                let _ = self.users.remove(i);
                proof {
                    assert(self@ =~= before.remove(i as int)) by {
                        assert forall|k: int| 0 <= k < self@.len() implies self@[k]
                            == before.remove(i as int)[k] by {
                            assert(self@[k] == self.users@[k]@);
                            if k < i {
                                assert(self.users@[k] == beforeu[k]);
                            } else {
                                assert(self.users@[k] == beforeu[k + 1]);
                            }
                        }
                    }
                }
                let ghost mid = self@;
                self.users.push(u);
                proof {
                    assert(self@ =~= mid.push(uv));
                }
            },
            None => {
                let ghost before = self@;
                self.users.push(u);
                proof {
                    assert(self@ =~= before.push(uv));
                }
            },
        }
        let mut t = n.clone();
        t.append(" is now associated to the LastFM user ");
        t.append(lfm.as_str());
        Action::Send { target: target.clone(), text: t }
    }

    /// Decides the account a `!lastsong` request asks about.
    fn lastsong(&self, n: &String, target: &String) -> (r: Action)
        ensures
            r@ == (ActionView::Query {
                target: target@,
                request: QueryRequestView::RecentTrack {
                    username: lookup_model(self@, n@),
                    requester: n@,
                },
            }),
    {
        let username = match self.find_index(n) {
            Some(i) => {
                let r = &self.users[i];
                proof {
                    assert(self@[i as int] == self.users@[i as int]@);
                }
                r.lastfm_username.clone()
            },
            None => n.clone(),
        };
        Action::Query {
            target: target.clone(),
            request: QueryRequest::RecentTrack { username, requester: n.clone() },
        }
    }
}

/// What the scrobbling service said about the last track, reduced to plain
/// values by the driver.
#[derive(Debug, Clone, PartialEq, Eq)]
pub enum TrackOutcome {
    /// The service returned a track.
    Found(TrackInfo),
    /// The service answered, but with no track.
    Missing,
    /// The call failed; the text describes the error.
    Failed(String),
}

#[derive(Debug, Clone, PartialEq, Eq)]
pub struct TrackInfo {
    pub name: String,
    pub artist: String,
    pub album: String,
    pub date: Option<String>,
}

pub struct TrackInfoView {
    pub name: Seq<char>,
    pub artist: Seq<char>,
    pub album: Seq<char>,
    pub date: Option<Seq<char>>,
}

impl View for TrackInfo {
    type V = TrackInfoView;

    open spec fn view(&self) -> TrackInfoView {
        TrackInfoView {
            name: self.name@,
            artist: self.artist@,
            album: self.album@,
            date: match &self.date {
                Some(d) => Some(d@),
                None => None,
            },
        }
    }
}

pub enum TrackOutcomeView {
    Found(TrackInfoView),
    Missing,
    Failed(Seq<char>),
}

impl View for TrackOutcome {
    type V = TrackOutcomeView;

    open spec fn view(&self) -> TrackOutcomeView {
        match self {
            TrackOutcome::Found(t) => TrackOutcomeView::Found(t@),
            TrackOutcome::Missing => TrackOutcomeView::Missing,
            TrackOutcome::Failed(e) => TrackOutcomeView::Failed(e@),
        }
    }
}

/// The line answering a `!lastsong` request, given what the service said.
pub open spec fn lastsong_line(
    username: Seq<char>,
    requester: Seq<char>,
    outcome: TrackOutcomeView,
) -> Seq<char> {
    match outcome {
        TrackOutcomeView::Found(t) => "The last song "@ + username + " listened to is "@ + t.name
            + " by "@ + t.artist + " (in "@ + t.album + ")"@ + (match t.date {
            Some(d) => ", on "@ + d,
            None => Seq::empty(),
        }) + ")"@,
        TrackOutcomeView::Missing => "I don't know what is the last song "@ + requester
            + " listened to. Try !addlastfmuser"@,
        TrackOutcomeView::Failed(e) => "Something bad happened: "@ + e,
    }
}

/// Renders the answer to a `!lastsong` request once the service's reply is
/// known.
pub fn lastsong_reply(username: &str, requester: &str, outcome: &TrackOutcome) -> (r: String)
    ensures
        r@ == lastsong_line(username@, requester@, outcome@),
{
    match outcome {
        TrackOutcome::Found(t) => {
            let mut s = String::from_str("The last song ");
            s.append(username);
            s.append(" listened to is ");
            s.append(t.name.as_str());
            s.append(" by ");
            s.append(t.artist.as_str());
            s.append(" (in ");
            s.append(t.album.as_str());
            s.append(")");
            match &t.date {
                Some(d) => {
                    s.append(", on ");
                    s.append(d.as_str());
                },
                None => (),
            }
            s.append(")");
            s
        },
        TrackOutcome::Missing => {
            let mut s = String::from_str("I don't know what is the last song ");
            s.append(requester);
            s.append(" listened to. Try !addlastfmuser");
            s
        },
        TrackOutcome::Failed(e) => {
            let mut s = String::from_str("Something bad happened: ");
            s.append(e.as_str());
            s
        },
    }
}

impl Plugin for LastFM {
    /// Wants the chat lines that say `!lastsong` or register an account.
    open spec fn allows(m: Seq<LastFMUserView>, nick: Seq<char>, ev: InboundEventView) -> bool {
        match ev.kind {
            EventKindView::Chat { target, text } => text == "!lastsong"@ || add_capture(text)
                is Some,
            _ => false,
        }
    }

    /// `!lastsong` asks the service about the speaker's account; a
    /// registration updates the table and confirms it. A line without a
    /// source identity does nothing.
    open spec fn step(m: Seq<LastFMUserView>, nick: Seq<char>, ev: InboundEventView) -> (Seq<
        LastFMUserView,
    >, Result<ActionView, PluginError>) {
        match ev.kind {
            EventKindView::Chat { target, text } => {
                if text == "!lastsong"@ {
                    match ev.source {
                        Some(n) => (
                            m,
                            Ok(
                                ActionView::Query {
                                    target,
                                    request: QueryRequestView::RecentTrack {
                                        username: lookup_model(m, n),
                                        requester: n,
                                    },
                                },
                            ),
                        ),
                        None => (m, Ok(ActionView::Idle)),
                    }
                } else {
                    match add_capture(text) {
                        Some(lfm) => match ev.source {
                            Some(n) => (
                                add_model(m, n, lfm),
                                Ok(
                                    ActionView::Send {
                                        target,
                                        text: added_line(n, lfm),
                                    },
                                ),
                            ),
                            None => (m, Ok(ActionView::Idle)),
                        },
                        None => (m, Ok(ActionView::Idle)),
                    }
                }
            },
            _ => (m, Ok(ActionView::Idle)),
        }
    }

    fn is_allowed(&self, ctx: &Identity, ev: &InboundEvent) -> (b: bool) {
        match &ev.kind {
            EventKind::Chat { target: _, text } => {
                let tc = to_chars(text.as_str());
                let cmd = to_chars("!lastsong");
                if chars_eq(&tc, &cmd) {
                    true
                } else {
                    let add = to_chars("!addlastfmuser ");
                    match find_capture(&tc, &add, CharClass::NotNewline) {
                        Some(_) => true,
                        None => false,
                    }
                }
            },
            _ => false,
        }
    }

    fn execute(&mut self, ctx: &Identity, ev: &InboundEvent) -> (r: Result<Action, PluginError>) {
        match &ev.kind {
            EventKind::Chat { target, text } => {
                let tc = to_chars(text.as_str());
                let cmd = to_chars("!lastsong");
                if chars_eq(&tc, &cmd) {
                    match &ev.source {
                        Some(n) => Ok(self.lastsong(n, target)),
                        None => Ok(Action::Idle),
                    }
                } else {
                    let add = to_chars("!addlastfmuser ");
                    match find_capture(&tc, &add, CharClass::NotNewline) {
                        Some((a, b)) => {
                            let lfm = string_of_range(&tc, a, b);
                            match &ev.source {
                                Some(n) => Ok(self.add_user(n, &lfm, target)),
                                None => Ok(Action::Idle),
                            }
                        },
                        None => Ok(Action::Idle),
                    }
                }
            },
            _ => Ok(Action::Idle),
        }
    }
}

} // verus!
