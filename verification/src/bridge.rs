//! The call bridge: assembles exactly one synchronous invocation of the
//! external executor per operation, and normalizes its binary-or-failure
//! outcome into a typed result.
//!
//! The bridge itself has no side effects: all mutation happens inside the
//! executor. Callers hand the assembled [`CallRequest`] to their runtime,
//! which performs the dispatch and reports a [`CallOutcome`] back.

use crate::types::{AccountId, Error};
use vstd::prelude::*;

verus! {

/// Whether non-deterministic executor code paths are permitted during a
/// call. Mutating operations require deterministic execution to keep their
/// results reproducible.
#[derive(Clone, Copy, PartialEq, Eq, Debug)]
pub enum Determinism {
    /// Only deterministic code paths may run.
    Deterministic,
    /// Non-deterministic code paths are tolerated.
    Relaxed,
}

/// One fully assembled invocation of the external executor. Built, delivered
/// once, and discarded; nothing of it persists between calls.
pub struct CallRequest {
    /// Identity authorizing and paying for the call.
    pub caller: AccountId,
    /// Address of the executor to invoke; doubles as the collection id.
    pub target: AccountId,
    /// Amount transferred to the executor as part of the call; may be zero.
    pub value: u128,
    /// Maximum computation the executor may consume. The bridge passes the
    /// caller's ceiling through unmodified; it never silently raises it.
    pub budget: u64,
    /// Optional ceiling on storage the call may consume.
    pub storage_limit: Option<u128>,
    /// The binary call payload: a 4-byte selector followed by the canonical
    /// encoding of each argument.
    pub payload: Vec<u8>,
    /// Whether the executor may call back into the originating context;
    /// disallowed by default.
    pub allow_reentry: bool,
    /// The determinism requirement for this call.
    pub determinism: Determinism,
}

/// What one delegated call came to: either the executor ran and returned a
/// raw result buffer, or the invocation failed before or during execution.
/// A successful outcome's buffer may still fail to decode into the expected
/// typed result; that is a separate, later failure.
pub enum CallOutcome {
    /// The call reached the executor and completed; `data` is the raw
    /// binary result buffer it returned.
    Success { data: Vec<u8> },
    /// The call could not be executed, or the executor trapped.
    Failure,
}

/// Assembles one executor invocation from the caller's parameters, each
/// passed through unmodified. In particular the computation budget is the
/// caller's intended ceiling, never raised behind the caller's back.
pub fn build_call(
    caller: &AccountId,
    target: &AccountId,
    value: u128,
    budget: u64,
    storage_limit: Option<u128>,
    payload: Vec<u8>,
    allow_reentry: bool,
    determinism: Determinism,
) -> (req: CallRequest)
    ensures
        req.caller == *caller,
        req.target == *target,
        req.value == value,
        req.budget == budget,
        req.storage_limit == storage_limit,
        req.payload == payload,
        req.allow_reentry == allow_reentry,
        req.determinism == determinism,
{
    CallRequest {
        caller: *caller,
        target: *target,
        value,
        budget,
        storage_limit,
        payload,
        allow_reentry,
        determinism,
    }
}

/// Maps the executor's binary-or-failure outcome into a typed result: the
/// raw buffer on success, and a recoverable [`Error::DispatchFailure`] when
/// the invocation failed. A failure is never swallowed.
pub fn outcome_to_result(outcome: CallOutcome) -> (r: Result<Vec<u8>, Error>)
    ensures
        outcome matches CallOutcome::Success { data } ==> r == Ok::<Vec<u8>, Error>(data),
        outcome is Failure ==> r == Err::<Vec<u8>, Error>(Error::DispatchFailure),
{
    match outcome {
        CallOutcome::Success { data } => Ok(data),
        CallOutcome::Failure => Err(Error::DispatchFailure),
    }
}

} // verus!
