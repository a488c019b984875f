//! The outbound side of the data model: what a plugin asks the driver to do,
//! and the per-invocation outcome record the dispatch core keeps.

use vstd::prelude::*;

verus! {

/// Outside work a plugin needs performed before it can answer: each variant
/// carries plain values, and the answer comes back as plain values.
#[derive(Debug, Clone, PartialEq, Eq)]
pub enum QueryRequest {
    /// Fetch a page and extract its title.
    FetchTitle { url: String },
    /// Fetch a dictionary page and extract the entry.
    FetchTangorin { url: String },
    /// Look up a conversion rate and convert `value` from `source` to `target`.
    ConvertRate { value: u64, source: String, target: String },
    /// Ask the scrobbling service for the last track of `username`.
    RecentTrack { username: String, requester: String },
}

pub enum QueryRequestView {
    FetchTitle { url: Seq<char> },
    FetchTangorin { url: Seq<char> },
    ConvertRate { value: u64, source: Seq<char>, target: Seq<char> },
    RecentTrack { username: Seq<char>, requester: Seq<char> },
}

impl View for QueryRequest {
    type V = QueryRequestView;

    open spec fn view(&self) -> QueryRequestView {
        match self {
            QueryRequest::FetchTitle { url } => QueryRequestView::FetchTitle { url: url@ },
            QueryRequest::FetchTangorin { url } => QueryRequestView::FetchTangorin { url: url@ },
            QueryRequest::ConvertRate { value, source, target } => QueryRequestView::ConvertRate {
                value: *value,
                source: source@,
                target: target@,
            },
            QueryRequest::RecentTrack { username, requester } => QueryRequestView::RecentTrack {
                username: username@,
                requester: requester@,
            },
        }
    }
}

/// What a plugin's action phase decided.
#[derive(Debug, Clone, PartialEq, Eq)]
pub enum Action {
    /// Nothing to do for this event.
    Idle,
    /// Emit one chat line on the connection.
    Send { target: String, text: String },
    /// Perform outside work, then answer toward `target`.
    Query { target: String, request: QueryRequest },
}

pub enum ActionView {
    Idle,
    Send { target: Seq<char>, text: Seq<char> },
    Query { target: Seq<char>, request: QueryRequestView },
}

impl View for Action {
    type V = ActionView;

    open spec fn view(&self) -> ActionView {
        match self {
            Action::Idle => ActionView::Idle,
            Action::Send { target, text } => ActionView::Send { target: target@, text: text@ },
            Action::Query { target, request } => ActionView::Query {
                target: target@,
                request: request@,
            },
        }
    }
}

/// Why a plugin invocation failed. Failures are contained to the one
/// invocation that raised them.
#[derive(Debug, Clone, Copy, PartialEq, Eq, Structural)]
pub enum PluginError {
    Failure,
}

/// The record the dispatch core keeps of one (event, plugin) invocation,
/// for diagnostics and for the driver to act on.
#[derive(Debug, Clone, PartialEq, Eq)]
pub enum DispatchOutcome {
    /// The predicate declined the event: no action ran.
    Skipped,
    /// The action ran and decided this.
    Done(Action),
    /// The action ran and failed.
    Failed(PluginError),
}

pub enum OutcomeView {
    Skipped,
    Done(ActionView),
    Failed(PluginError),
}

impl View for DispatchOutcome {
    type V = OutcomeView;

    open spec fn view(&self) -> OutcomeView {
        match self {
            DispatchOutcome::Skipped => OutcomeView::Skipped,
            DispatchOutcome::Done(a) => OutcomeView::Done(a@),
            DispatchOutcome::Failed(e) => OutcomeView::Failed(*e),
        }
    }
}

} // verus!
