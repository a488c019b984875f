//! Looks a word up in an online Japanese dictionary on `!tangorin <word>`.

use vstd::prelude::*;
use vstd::string::*;
use crate::action::{Action, ActionView, PluginError, QueryRequest, QueryRequestView};
use crate::event::{EventKind, EventKindView, Identity, InboundEvent, InboundEventView};
use crate::plugin::Plugin;
use crate::text::{
    capture_spec, chars_to_string, find_capture, lower_of, lowercase, string_of_range, to_chars,
    CharClass,
};

verus! {

/// The word a `!tangorin` request asks about, if the line holds one.
pub open spec fn kanji_capture(text: Seq<char>) -> Option<Seq<char>> {
    capture_spec(text, "!tangorin "@, CharClass::NotSpace)
}

/// The address of the dictionary page for `kanji`.
pub open spec fn tangorin_url(kanji: Seq<char>) -> Seq<char> {
    "http://tangorin.com/general/"@ + kanji
}

/// The dictionary plugin; it keeps no state.
pub struct Tangorin {}

impl View for Tangorin {
    type V = ();

    open spec fn view(&self) -> () {
        ()
    }
}

impl Tangorin {
    pub fn new() -> (p: Tangorin)
        ensures
            p@ == (),
    {
        Tangorin {  }
    }

    /// The word a `!tangorin` request asks about, if any.
    pub fn grep_kanji(&self, msg: &str) -> (r: Option<String>)
        ensures
            match kanji_capture(msg@) {
                Some(c) => r is Some && r->Some_0@ == c,
                None => r is None,
            },
    {
        let v = to_chars(msg);
        let cmd = to_chars("!tangorin ");
        match find_capture(&v, &cmd, CharClass::NotSpace) {
            Some((a, b)) => Some(string_of_range(&v, a, b)),
            None => None,
        }
    }
}

/// What the driver scraped off the dictionary page, as plain values.
#[derive(Debug, Clone, PartialEq, Eq)]
pub struct TangorinEntry {
    pub kanji: String,
    pub kana: String,
    pub romaji: String,
    pub meaning: String,
    pub info: Option<String>,
}

pub struct TangorinEntryView {
    pub kanji: Seq<char>,
    pub kana: Seq<char>,
    pub romaji: Seq<char>,
    pub meaning: Seq<char>,
    pub info: Option<Seq<char>>,
}

impl View for TangorinEntry {
    type V = TangorinEntryView;

    open spec fn view(&self) -> TangorinEntryView {
        TangorinEntryView {
            kanji: self.kanji@,
            kana: self.kana@,
            romaji: self.romaji@,
            meaning: self.meaning@,
            info: match &self.info {
                Some(i) => Some(i@),
                None => None,
            },
        }
    }
}

/// `s` with every em dash and full stop removed.
pub open spec fn strip_marks(s: Seq<char>) -> Seq<char>
    decreases s.len(),
{
    if s.len() == 0 {
        Seq::empty()
    } else {
        let rest = strip_marks(s.drop_last());
        if s.last() == '\u{2014}' || s.last() == '.' {
            rest
        } else {
            rest.push(s.last())
        }
    }
}

/// The parenthesised usage note, cleaned and lowercased, or nothing.
pub open spec fn info_part(info: Option<Seq<char>>) -> Seq<char> {
    match info {
        Some(i) => " ("@ + lower_of(strip_marks(i)) + ")"@,
        None => Seq::empty(),
    }
}

/// The line answering a `!tangorin` request, given the scraped entry.
pub open spec fn tangorin_line(e: TangorinEntryView) -> Seq<char> {
    "[Tangorin] "@ + e.kanji + " ("@ + e.kana + " - "@ + e.romaji + "): "@ + e.meaning + info_part(
        e.info,
    )
}

/// Removes every em dash and full stop from the characters of `s`.
#[verifier::loop_isolation(false)]
fn strip_marks_exec(v: &Vec<char>) -> (r: Vec<char>)
    ensures
        r@ == strip_marks(v@),
{
    let mut out: Vec<char> = Vec::new();
    let mut i: usize = 0;
    while i < v.len()
        invariant
            i <= v@.len(),
            out@ == strip_marks(v@.subrange(0, i as int)),
        decreases v@.len() - i,
    {
        let c = v[i];
        proof {
            assert(v@.subrange(0, i + 1 as int).drop_last() =~= v@.subrange(0, i as int));
            assert(v@.subrange(0, i + 1 as int).last() == v@[i as int]);
        }
        if !(c == '\u{2014}' || c == '.') {
            out.push(c);
        }
        i = i + 1;
    }
    proof {
        assert(v@.subrange(0, v@.len() as int) =~= v@);
    }
    out
}

/// Renders the answer to a `!tangorin` request once the page is scraped.
pub fn tangorin_reply(e: &TangorinEntry) -> (r: String)
    ensures
        r@ == tangorin_line(e@),
{
    let mut s = String::from_str("[Tangorin] ");
    s.append(e.kanji.as_str());
    s.append(" (");
    s.append(e.kana.as_str());
    s.append(" - ");
    s.append(e.romaji.as_str());
    s.append("): ");
    s.append(e.meaning.as_str());
    match &e.info {
        Some(i) => {
            let ic = to_chars(i.as_str());
            let stripped = strip_marks_exec(&ic);
            let plain = chars_to_string(&stripped);
            let low = lowercase(plain.as_str());
            s.append(" (");
            s.append(low.as_str());
            s.append(")");
        },
        None => (),
    }
    s
}

impl Plugin for Tangorin {
    /// Wants the chat lines that carry a `!tangorin` request.
    open spec fn allows(m: (), nick: Seq<char>, ev: InboundEventView) -> bool {
        match ev.kind {
            EventKindView::Chat { target, text } => kanji_capture(text) is Some,
            _ => false,
        }
    }

    /// Asks the driver to fetch and scrape the dictionary page.
    open spec fn step(m: (), nick: Seq<char>, ev: InboundEventView) -> ((), Result<
        ActionView,
        PluginError,
    >) {
        match ev.kind {
            EventKindView::Chat { target, text } => {
                match kanji_capture(text) {
                    Some(k) => (
                        (),
                        Ok(
                            ActionView::Query {
                                target,
                                request: QueryRequestView::FetchTangorin { url: tangorin_url(k) },
                            },
                        ),
                    ),
                    None => ((), Ok(ActionView::Idle)),
                }
            },
            _ => ((), Ok(ActionView::Idle)),
        }
    }

    fn is_allowed(&self, ctx: &Identity, ev: &InboundEvent) -> (b: bool) {
        match &ev.kind {
            EventKind::Chat { target: _, text } => {
                let v = to_chars(text.as_str());
                let cmd = to_chars("!tangorin ");
                match find_capture(&v, &cmd, CharClass::NotSpace) {
                    Some(_) => true,
                    None => false,
                }
            },
            _ => false,
        }
    }

    fn execute(&mut self, ctx: &Identity, ev: &InboundEvent) -> (r: Result<Action, PluginError>) {
        match &ev.kind {
            EventKind::Chat { target, text } => {
                let v = to_chars(text.as_str());
                let cmd = to_chars("!tangorin ");
                match find_capture(&v, &cmd, CharClass::NotSpace) {
                    Some((a, b)) => {
                        let kanji = string_of_range(&v, a, b);
                        let mut url = String::from_str("http://tangorin.com/general/");
                        url.append(kanji.as_str());
                        Ok(
                            Action::Query {
                                target: target.clone(),
                                request: QueryRequest::FetchTangorin { url },
                            },
                        )
                    },
                    None => Ok(Action::Idle),
                }
            },
            _ => Ok(Action::Idle),
        }
    }
}

} // verus!
