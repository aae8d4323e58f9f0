//! The per-request query pipeline: `Received → Parsed → Validated →
//! Executed`, or `Failed` at the stage that rejected the request.
//!
//! The grammar itself lives outside the library; the pipeline fixes the
//! order of the stages, what each failure carries, and that a failed request
//! asks for no further work. Empty query text fails at the parse stage
//! before the parser is ever asked.

use vstd::prelude::*;

use crate::query::ExecutionError;

verus! {

/// Why a request failed. The categories are stable: callers branch on them.
#[derive(Clone, Debug)]
pub enum QueryError {
    /// The request held no query text; no parser was invoked.
    EmptyQuery,
    /// The grammar rejected the text, with its message.
    Parse(String),
    /// The parsed tree is not type-coherent. Only the category is surfaced;
    /// the specific cause is not.
    Validation,
    /// The engine rejected the request.
    Execution(ExecutionError),
}

/// The stage a request is at, or how it ended.
#[derive(Clone, Debug)]
pub enum QueryState {
    Received,
    Parsed,
    Validated,
    Executed,
    Failed(QueryError),
}

/// The work the pipeline asks for next.
#[derive(Clone, Copy, Debug, PartialEq, Eq, Structural)]
pub enum QueryAction {
    Parse,
    Validate,
    Execute,
}

/// What the performed action reported back.
#[derive(Clone, Debug)]
pub enum QueryEvent {
    ParseOk,
    ParseFailed(String),
    ValidateOk,
    ValidateFailed(String),
    ExecuteOk,
    ExecuteFailed(ExecutionError),
}

/// The stage at which a failure arose.
pub open spec fn failure_stage(e: QueryError) -> QueryAction {
    match e {
        QueryError::EmptyQuery => QueryAction::Parse,
        QueryError::Parse(_) => QueryAction::Parse,
        QueryError::Validation => QueryAction::Validate,
        QueryError::Execution(_) => QueryAction::Execute,
    }
}

/// The state a request starts in: already failed at the parse stage when the
/// text is empty, awaiting the parser otherwise.
pub open spec fn spec_start(text: Seq<char>) -> QueryState {
    if text.len() == 0 {
        QueryState::Failed(QueryError::EmptyQuery)
    } else {
        QueryState::Received
    }
}

/// The work each state asks for; a finished or failed request asks for none.
pub open spec fn spec_action(s: QueryState) -> Option<QueryAction> {
    match s {
        QueryState::Received => Some(QueryAction::Parse),
        QueryState::Parsed => Some(QueryAction::Validate),
        QueryState::Validated => Some(QueryAction::Execute),
        QueryState::Executed => None,
        QueryState::Failed(_) => None,
    }
}

/// Whether an event answers the action a state asked for.
pub open spec fn event_matches(s: QueryState, e: QueryEvent) -> bool {
    match s {
        QueryState::Received => e is ParseOk || e is ParseFailed,
        QueryState::Parsed => e is ValidateOk || e is ValidateFailed,
        QueryState::Validated => e is ExecuteOk || e is ExecuteFailed,
        QueryState::Executed => false,
        QueryState::Failed(_) => false,
    }
}

/// The transition table: each stage advances on success and fails in place
/// on rejection. A validation failure keeps only the category; a parse or
/// execution failure carries the reporter's value.
pub open spec fn spec_step(s: QueryState, e: QueryEvent) -> QueryState {
    match e {
        QueryEvent::ParseOk => QueryState::Parsed,
        QueryEvent::ParseFailed(m) => QueryState::Failed(QueryError::Parse(m)),
        QueryEvent::ValidateOk => QueryState::Validated,
        QueryEvent::ValidateFailed(_) => QueryState::Failed(QueryError::Validation),
        QueryEvent::ExecuteOk => QueryState::Executed,
        QueryEvent::ExecuteFailed(err) => QueryState::Failed(QueryError::Execution(err)),
    }
}

/// Starts a request: empty text fails at the parse stage at once, without
/// invoking the parser.
pub fn pipeline_start(text: &str) -> (s: QueryState)
    ensures
        s == spec_start(text@),
{
    if text.is_empty() {
        QueryState::Failed(QueryError::EmptyQuery)
    } else {
        QueryState::Received
    }
}

/// The work to perform next, if any.
pub fn pipeline_action(s: &QueryState) -> (a: Option<QueryAction>)
    ensures
        a == spec_action(*s),
{
    match s {
        QueryState::Received => Some(QueryAction::Parse),
        QueryState::Parsed => Some(QueryAction::Validate),
        QueryState::Validated => Some(QueryAction::Execute),
        QueryState::Executed => None,
        QueryState::Failed(_) => None,
    }
}

/// Advances the pipeline on the outcome of the requested work.
pub fn pipeline_step(s: QueryState, e: QueryEvent) -> (s2: QueryState)
    requires
        event_matches(s, e),
    ensures
        s2 == spec_step(s, e),
{
    match e {
        QueryEvent::ParseOk => QueryState::Parsed,
        QueryEvent::ParseFailed(m) => QueryState::Failed(QueryError::Parse(m)),
        QueryEvent::ValidateOk => QueryState::Validated,
        QueryEvent::ValidateFailed(_) => QueryState::Failed(QueryError::Validation),
        QueryEvent::ExecuteOk => QueryState::Executed,
        QueryEvent::ExecuteFailed(err) => QueryState::Failed(QueryError::Execution(err)),
    }
}

/// An empty query fails at the parse stage and the pipeline requests no
/// further work: neither validation nor execution is ever invoked for it.
pub proof fn lemma_empty_query_short_circuits(text: Seq<char>)
    requires
        text.len() == 0,
    ensures
        spec_start(text) matches QueryState::Failed(e) && failure_stage(e) == QueryAction::Parse,
        spec_action(spec_start(text)) is None,
{
}

/// A failed request stays failed: no event answers it, so its failure is the
/// request's final outcome.
pub proof fn lemma_failure_is_final(e: QueryError, ev: QueryEvent)
    ensures
        !event_matches(QueryState::Failed(e), ev),
        spec_action(QueryState::Failed(e)) is None,
{
}

} // verus!
