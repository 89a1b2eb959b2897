//! The plain values that cross the call boundary: identities, item ids, and
//! the error taxonomy every operation reports through.

use vstd::prelude::*;

verus! {

/// Opaque, fixed-size identity of a caller or an account.
///
/// When used as a collection id it also denotes the address of the external
/// executor to call: collection identity and invocation target are the same
/// value, so every operation on a collection targets exactly one executor.
/// Its canonical byte form is the 32 bytes themselves, in order.
#[derive(Clone, Copy, PartialEq, Eq, Hash, Debug)]
#[verifier::ext_equal]
pub struct AccountId(pub [u8; 32]);

impl View for AccountId {
    type V = Seq<u8>;

    open spec fn view(&self) -> Seq<u8> {
        self.0@
    }
}

/// Fixed-width id of an item within a collection's external state.
/// Uniqueness is the executor's business, not this crate's.
pub type ItemId = u32;

/// How an operation can fail. Every failure is surfaced to the caller as a
/// typed result; nothing is recovered locally and nothing is retried.
#[derive(Clone, Copy, PartialEq, Eq, Debug)]
pub enum Error {
    /// The external executor could not be invoked, or trapped during
    /// execution (budget exhausted, executor missing, executor-internal
    /// error).
    DispatchFailure,
    /// A returned buffer did not match the expected typed shape: a protocol
    /// mismatch, distinct from an executor-side failure.
    DecodeFailure,
    /// The wrapped protocol has no counterpart for the requested operation
    /// (attribute mutation). Deterministic, never retried.
    UnsupportedOperation,
    /// Reserved for policy checks; the current placeholder policy always
    /// passes, so no operation reports it yet.
    AuthorizationFailure,
}

} // verus!
