//! Announces the title of a page whose address appears in chat.

use vstd::prelude::*;
use vstd::string::*;
use crate::action::{Action, ActionView, PluginError, QueryRequest, QueryRequestView};
use crate::event::{EventKind, EventKindView, Identity, InboundEvent, InboundEventView};
use crate::plugin::Plugin;
use crate::text::{
    in_class, is_prefix_at, is_space_char, prefix_at, run_end, scan_run, string_of_range, to_chars,
    CharClass,
};

verus! {

/// Whether a secure address starts at `i`: the scheme and at least one
/// non-space character after it.
pub open spec fn https_at(s: Seq<char>, i: int) -> bool {
    is_prefix_at(s, "https://"@, i) && i + 8 < s.len() && !is_space_char(s[i + 8])
}

/// Whether a plain address starts at `i`.
pub open spec fn http_at(s: Seq<char>, i: int) -> bool {
    is_prefix_at(s, "http://"@, i) && i + 7 < s.len() && !is_space_char(s[i + 7])
}

pub open spec fn url_match_at(s: Seq<char>, i: int) -> bool {
    https_at(s, i) || http_at(s, i)
}

/// The least position at or after `i` where an address starts.
pub open spec fn url_first_from(s: Seq<char>, i: int) -> Option<int>
    decreases s.len() - i,
{
    if i > s.len() || i < 0 {
        None
    } else if url_match_at(s, i) {
        Some(i)
    } else if i >= s.len() {
        None
    } else {
        url_first_from(s, i + 1)
    }
}

pub proof fn lemma_url_first_from(s: Seq<char>, i: int)
    requires
        0 <= i <= s.len(),
    ensures
        match url_first_from(s, i) {
            Some(j) => i <= j && url_match_at(s, j) && forall|k: int|
                i <= k < j ==> !url_match_at(s, k),
            None => forall|k: int| i <= k ==> !url_match_at(s, k),
        },
    decreases s.len() - i,
{
    if !url_match_at(s, i) && i < s.len() {
        lemma_url_first_from(s, i + 1);
    }
    if i >= s.len() && !url_match_at(s, i) {
        assert forall|k: int| i <= k implies !url_match_at(s, k) by {
            if k < s.len() {
                assert(k < i);
            }
        }
    }
}

/// The host-and-path part of the leftmost address in the line, if any.
pub open spec fn url_capture(s: Seq<char>) -> Option<Seq<char>> {
    match url_first_from(s, 0) {
        Some(i) => if https_at(s, i) {
            Some(s.subrange(i + 8, run_end(s, i + 8, CharClass::NotSpace)))
        } else {
            Some(s.subrange(i + 7, run_end(s, i + 7, CharClass::NotSpace)))
        },
        None => None,
    }
}

/// The address plugin; it keeps no state.
pub struct Url {}

impl View for Url {
    type V = ();

    open spec fn view(&self) -> () {
        ()
    }
}

impl Url {
    pub fn new() -> (p: Url)
        ensures
            p@ == (),
    {
        Url {  }
    }

    /// The leftmost address in the line, rewritten onto the secure scheme.
    #[verifier::loop_isolation(false)]
    pub fn grep_url(&self, msg: &str) -> (r: Option<String>)
        ensures
            match url_capture(msg@) {
                Some(c) => r is Some && r->Some_0@ == "https://"@ + c,
                None => r is None,
            },
    {
        let v = to_chars(msg);
        let https = to_chars("https://");
        let http = to_chars("http://");
        let mut i: usize = 0;
        while i < v.len()
            invariant
                i <= v@.len(),
                forall|k: int| 0 <= k < i ==> !url_match_at(v@, k),
            decreases v@.len() - i,
        {
            let is_https = prefix_at(&v, &https, i) && v.len() - i > 8 && !in_class(
                CharClass::Space,
                v[i + 8],
            );
            let is_http = prefix_at(&v, &http, i) && v.len() - i > 7 && !in_class(
                CharClass::Space,
                v[i + 7],
            );
            if is_https || is_http {
                proof {
                    assert(url_match_at(v@, i as int));
                    lemma_url_first_from(v@, 0);
                    match url_first_from(v@, 0) {
                        Some(j) => {
                            if j < i {
                                assert(!url_match_at(v@, j));
                                assert(false);
                            } else if j > i {
                                assert(!url_match_at(v@, i as int));
                                assert(false);
                            }
                        },
                        None => {
                            assert(!url_match_at(v@, i as int));
                            assert(false);
                        },
                    }
                }
                let a = if is_https {
                    i + 8
                } else {
                    i + 7
                };
                let b = scan_run(&v, a, CharClass::NotSpace);
                let mut s = String::from_str("https://");
                let rest = string_of_range(&v, a, b);
                s.append(rest.as_str());
                return Some(s);
            }
            i = i + 1;
        }
        proof {
            lemma_url_first_from(v@, 0);
            if url_first_from(v@, 0) is Some {
                let j = url_first_from(v@, 0)->Some_0;
                assert(j < v@.len());
                assert(!url_match_at(v@, j));
            }
        }
        None
    }
}

/// The line announcing a page title.
pub open spec fn title_line(title: Seq<char>) -> Seq<char> {
    "[URL] "@ + title
}

/// Renders the announcement once the page title is known.
pub fn title_reply(title: &str) -> (r: String)
    ensures
        r@ == title_line(title@),
{
    let mut s = String::from_str("[URL] ");
    s.append(title);
    s
}

impl Plugin for Url {
    /// Wants the chat lines in which an address appears.
    open spec fn allows(m: (), nick: Seq<char>, ev: InboundEventView) -> bool {
        match ev.kind {
            EventKindView::Chat { target, text } => url_capture(text) is Some,
            _ => false,
        }
    }

    /// Asks the driver to fetch the page and extract its title.
    open spec fn step(m: (), nick: Seq<char>, ev: InboundEventView) -> ((), Result<
        ActionView,
        PluginError,
    >) {
        match ev.kind {
            EventKindView::Chat { target, text } => {
                match url_capture(text) {
                    Some(c) => (
                        (),
                        Ok(
                            ActionView::Query {
                                target,
                                request: QueryRequestView::FetchTitle { url: "https://"@ + c },
                            },
                        ),
                    ),
                    None => ((), Ok(ActionView::Idle)),
                }
            },
            _ => ((), Ok(ActionView::Idle)),
        }
    }

    fn is_allowed(&self, ctx: &Identity, ev: &InboundEvent) -> (b: bool) {
        match &ev.kind {
            EventKind::Chat { target: _, text } => {
                match self.grep_url(text.as_str()) {
                    Some(_) => true,
                    None => false,
                }
            },
            _ => false,
        }
    }

    fn execute(&mut self, ctx: &Identity, ev: &InboundEvent) -> (r: Result<Action, PluginError>) {
        match &ev.kind {
            EventKind::Chat { target, text } => {
                match self.grep_url(text.as_str()) {
                    Some(url) => Ok(
                        Action::Query {
                            target: target.clone(),
                            request: QueryRequest::FetchTitle { url },
                        },
                    ),
                    None => Ok(Action::Idle),
                }
            },
            _ => Ok(Action::Idle),
        }
    }
}

} // verus!
