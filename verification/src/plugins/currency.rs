//! Converts amounts between currencies on request.
//!
//! A conversion request is an amount in digits, a source currency word, the
//! word `to` in either case, and a target currency word, separated by single
//! spaces; the leftmost such phrase in the line wins.

use vstd::prelude::*;
use vstd::string::*;
use crate::action::{Action, ActionView, PluginError, QueryRequest, QueryRequestView};
use crate::event::{EventKind, EventKindView, Identity, InboundEvent, InboundEventView};
use crate::plugin::Plugin;
use crate::text::{
    chars_to_string, dec_spec, digits_value, in_class, is_alpha_char, is_digit_char, lemma_run_end,
    parse_u64, run_end, scan_run, string_of_range, sub_chars, to_chars, u64_to_chars, CharClass,
};

verus! {

/// Whether a conversion phrase starts at `i`: digits, a space, a currency
/// word, a space, `to` in either case, a space, a currency word.
pub open spec fn curr_match_at(s: Seq<char>, i: int) -> bool {
    let d = run_end(s, i, CharClass::Digit);
    let a1 = run_end(s, d + 1, CharClass::Alpha);
    0 <= i < s.len() && is_digit_char(s[i]) && d < s.len() && s[d] == ' ' && d + 1 < s.len()
        && is_alpha_char(s[d + 1]) && a1 + 4 < s.len() && s[a1] == ' ' && (s[a1 + 1] == 't' || s[a1
        + 1] == 'T') && (s[a1 + 2] == 'o' || s[a1 + 2] == 'O') && s[a1 + 3] == ' '
        && is_alpha_char(s[a1 + 4])
}

/// The three captures of the phrase at `i`: digits, source word, target word.
pub open spec fn curr_caps(s: Seq<char>, i: int) -> (Seq<char>, Seq<char>, Seq<char>) {
    let d = run_end(s, i, CharClass::Digit);
    let a1 = run_end(s, d + 1, CharClass::Alpha);
    let a2 = run_end(s, a1 + 4, CharClass::Alpha);
    (s.subrange(i, d), s.subrange(d + 1, a1), s.subrange(a1 + 4, a2))
}

/// The least position at or after `i` where a conversion phrase starts.
pub open spec fn curr_first_from(s: Seq<char>, i: int) -> Option<int>
    decreases s.len() - i,
{
    if i > s.len() || i < 0 {
        None
    } else if curr_match_at(s, i) {
        Some(i)
    } else if i >= s.len() {
        None
    } else {
        curr_first_from(s, i + 1)
    }
}

/// The leftmost conversion phrase in the line, if any.
pub open spec fn curr_first(s: Seq<char>) -> Option<int> {
    curr_first_from(s, 0)
}

pub proof fn lemma_curr_first(s: Seq<char>, i: int)
    requires
        0 <= i <= s.len(),
    ensures
        match curr_first_from(s, i) {
            Some(j) => i <= j && curr_match_at(s, j) && forall|k: int|
                i <= k < j ==> !curr_match_at(s, k),
            None => forall|k: int| i <= k ==> !curr_match_at(s, k),
        },
    decreases s.len() - i,
{
    if !curr_match_at(s, i) && i < s.len() {
        lemma_curr_first(s, i + 1);
    }
    if i >= s.len() && !curr_match_at(s, i) {
        assert forall|k: int| i <= k implies !curr_match_at(s, k) by {
            if k < s.len() {
                assert(k < i);
            }
        }
    }
}

/// One conversion request, as parsed out of a chat line.
#[derive(Debug, Clone, PartialEq, Eq)]
pub struct ConvertionRequest {
    pub value: u64,
    pub source: String,
    pub target: String,
}

pub struct ConvertionRequestView {
    pub value: u64,
    pub source: Seq<char>,
    pub target: Seq<char>,
}

impl View for ConvertionRequest {
    type V = ConvertionRequestView;

    open spec fn view(&self) -> ConvertionRequestView {
        ConvertionRequestView { value: self.value, source: self.source@, target: self.target@ }
    }
}

/// The currency conversion plugin; it keeps no state.
pub struct Currency {}

impl View for Currency {
    type V = ();

    open spec fn view(&self) -> () {
        ()
    }
}

/// Finds the leftmost conversion phrase: its start, the end of its digits,
/// the end of its source word, and the end of its target word.
#[verifier::loop_isolation(false)]
fn scan_message(v: &Vec<char>) -> (r: Option<(usize, usize, usize, usize)>)
    ensures
        match r {
            Some(m) => {
                &&& curr_first(v@) == Some(m.0 as int)
                &&& curr_match_at(v@, m.0 as int)
                &&& m.1 == run_end(v@, m.0 as int, CharClass::Digit)
                &&& m.2 == run_end(v@, m.1 + 1 as int, CharClass::Alpha)
                &&& m.3 == run_end(v@, m.2 + 4 as int, CharClass::Alpha)
                &&& m.0 < m.1 < v@.len()
                &&& m.1 + 1 <= m.2
                &&& m.2 + 4 <= m.3 <= v@.len()
            },
            None => curr_first(v@) is None,
        },
{
    let mut i: usize = 0;
    while i < v.len()
        invariant
            i <= v@.len(),
            forall|k: int| 0 <= k < i ==> !curr_match_at(v@, k),
        decreases v@.len() - i,
    {
        if in_class(CharClass::Digit, v[i]) {
            let d = scan_run(v, i, CharClass::Digit);
            proof {
                lemma_run_end(v@, i as int, CharClass::Digit);
            }
            if d < v.len() && v[d] == ' ' && d + 1 < v.len() && in_class(CharClass::Alpha, v[d + 1])
             {
                let a1 = scan_run(v, d + 1, CharClass::Alpha);
                proof {
                    lemma_run_end(v@, d + 1 as int, CharClass::Alpha);
                }
                if v.len() - a1 > 4 && v[a1] == ' ' && (v[a1 + 1] == 't' || v[a1 + 1] == 'T') && (
                v[a1 + 2] == 'o' || v[a1 + 2] == 'O') && v[a1 + 3] == ' ' && in_class(
                    CharClass::Alpha,
                    v[a1 + 4],
                ) {
                    let a2 = scan_run(v, a1 + 4, CharClass::Alpha);
                    proof {
                        lemma_run_end(v@, a1 + 4 as int, CharClass::Alpha);
                        assert(curr_match_at(v@, i as int));
                        lemma_curr_first(v@, 0);
                        match curr_first(v@) {
                            Some(j) => {
                                if j < i {
                                    assert(!curr_match_at(v@, j));
                                    assert(false);
                                } else if j > i {
                                    assert(!curr_match_at(v@, i as int));
                                    assert(false);
                                }
                            },
                            None => {
                                assert(!curr_match_at(v@, i as int));
                                assert(false);
                            },
                        }
                    }
                    return Some((i, d, a1, a2));
                }
            }
        }
        i = i + 1;
    }
    proof {
        lemma_curr_first(v@, 0);
        if curr_first(v@) is Some {
            let j = curr_first(v@)->Some_0;
            assert(j < v@.len());
            assert(!curr_match_at(v@, j));
        }
    }
    None
}

impl Currency {
    pub fn new() -> (p: Currency)
        ensures
            p@ == (),
    {
        Currency {  }
    }

    /// Parses the leftmost conversion phrase of the line, if its amount
    /// fits the machine word.
    pub fn grep_request(&self, msg: &str) -> (r: Option<ConvertionRequest>)
        ensures
            match curr_first(msg@) {
                Some(i) => {
                    let caps = curr_caps(msg@, i);
                    if digits_value(caps.0) <= u64::MAX {
                        r is Some && r->Some_0@ == (ConvertionRequestView {
                            value: digits_value(caps.0) as u64,
                            source: caps.1,
                            target: caps.2,
                        })
                    } else {
                        r is None
                    }
                },
                None => r is None,
            },
    {
        let v = to_chars(msg);
        match scan_message(&v) {
            Some((i, d, a1, a2)) => {
                let digits = sub_chars(&v, i, d);
                proof {
                    lemma_run_end(v@, i as int, CharClass::Digit);
                    assert forall|k: int| 0 <= k < digits@.len() implies is_digit_char(
                        #[trigger] digits@[k],
                    ) by {
                        assert(digits@[k] == v@[i + k]);
                    }
                }
                match parse_u64(&digits) {
                    Some(value) => {
                        let source = string_of_range(&v, d + 1, a1);
                        let target = string_of_range(&v, a1 + 4, a2);
                        Some(ConvertionRequest { value, source, target })
                    },
                    None => None,
                }
            },
            None => None,
        }
    }

    /// The address asked for the rates of `source`.
    pub fn rate_url(source: &str) -> (r: String)
        ensures
            r@ == "http://api.fixer.io/latest?base="@ + source@,
    {
        let mut s = String::from_str("http://api.fixer.io/latest?base=");
        s.append(source);
        s
    }
}

/// The line answering a conversion request, given the converted amount the
/// driver computed, or no amount when the lookup failed.
pub open spec fn conversion_line(
    req: ConvertionRequestView,
    converted: Option<Seq<char>>,
) -> Seq<char> {
    match converted {
        Some(c) => dec_spec(req.value as int) + " "@ + req.source + " => "@ + c + " "@
            + req.target,
        None => "Error while converting given currency"@,
    }
}

/// Renders the answer to a conversion request once the rate lookup is done.
pub fn conversion_reply(req: &ConvertionRequest, converted: Option<&String>) -> (r: String)
    ensures
        r@ == conversion_line(
            req@,
            match converted {
                Some(c) => Some(c@),
                None => None,
            },
        ),
{
    match converted {
        Some(c) => {
            let digits = u64_to_chars(req.value);
            let mut s = chars_to_string(&digits);
            s.append(" ");
            s.append(req.source.as_str());
            s.append(" => ");
            s.append(c.as_str());
            s.append(" ");
            s.append(req.target.as_str());
            s
        },
        None => String::from_str("Error while converting given currency"),
    }
}

impl Plugin for Currency {
    /// Wants the chat lines that hold a conversion phrase.
    open spec fn allows(m: (), nick: Seq<char>, ev: InboundEventView) -> bool {
        match ev.kind {
            EventKindView::Chat { target, text } => curr_first(text) is Some,
            _ => false,
        }
    }

    /// Asks the driver to look up the rate and convert; an amount too large
    /// for the machine word is left alone.
    open spec fn step(m: (), nick: Seq<char>, ev: InboundEventView) -> ((), Result<
        ActionView,
        PluginError,
    >) {
        match ev.kind {
            EventKindView::Chat { target, text } => {
                match curr_first(text) {
                    Some(i) => {
                        let caps = curr_caps(text, i);
                        if digits_value(caps.0) <= u64::MAX {
                            (
                                (),
                                Ok(
                                    ActionView::Query {
                                        target,
                                        request: QueryRequestView::ConvertRate {
                                            value: digits_value(caps.0) as u64,
                                            source: caps.1,
                                            target: caps.2,
                                        },
                                    },
                                ),
                            )
                        } else {
                            ((), Ok(ActionView::Idle))
                        }
                    },
                    None => ((), Ok(ActionView::Idle)),
                }
            },
            _ => ((), Ok(ActionView::Idle)),
        }
    }

    fn is_allowed(&self, ctx: &Identity, ev: &InboundEvent) -> (b: bool) {
        match &ev.kind {
            EventKind::Chat { target: _, text } => {
                let v = to_chars(text.as_str());
                match scan_message(&v) {
                    Some(_) => true,
                    None => false,
                }
            },
            _ => false,
        }
    }

    fn execute(&mut self, ctx: &Identity, ev: &InboundEvent) -> (r: Result<Action, PluginError>) {
        match &ev.kind {
            EventKind::Chat { target, text } => {
                match self.grep_request(text.as_str()) {
                    Some(req) => Ok(
                        Action::Query {
                            target: target.clone(),
                            request: QueryRequest::ConvertRate {
                                value: req.value,
                                source: req.source,
                                target: req.target,
                            },
                        },
                    ),
                    None => Ok(Action::Idle),
                }
            },
            _ => Ok(Action::Idle),
        }
    }
}

} // verus!
