//! The asset interface adapter: the public capability set over items keyed
//! by `(collection, item)`.
//!
//! Each remote operation is a single request/response transaction with no
//! carried-over state. The adapter assembles the operation's selector and
//! encoded arguments into a [`CallRequest`] (`*_request`), the caller's
//! runtime delivers it to the executor, and the reported [`CallOutcome`] is
//! interpreted by the matching `*_result` function. Capabilities the wrapped
//! protocol has no counterpart for answer directly, without a call: the
//! attribute queries are always unknown and the attribute setters always
//! refuse.

use crate::bridge::{build_call, outcome_to_result, CallOutcome, CallRequest, Determinism};
use crate::codec::{
    decode_result, encode_call, encode_typed_key, lemma_concat_one, lemma_concat_two,
    selector_bytes, Canonical, Selector,
};
use crate::types::{AccountId, Error, ItemId};
use vstd::bytes::spec_u32_to_le_bytes;
use vstd::prelude::*;

verus! {

/// Payload of an owner lookup: the owner-of tag, then the item id.
pub open spec fn owner_payload(item: ItemId) -> Seq<u8> {
    selector_bytes(Selector::OwnerOf) + spec_u32_to_le_bytes(item)
}

/// Payload of a mint: the mint tag, then the recipient, then the item id.
pub open spec fn mint_payload(recipient: AccountId, item: ItemId) -> Seq<u8> {
    selector_bytes(Selector::Mint) + recipient@ + spec_u32_to_le_bytes(item)
}

/// Payload of a burn: the burn tag, then the item id.
pub open spec fn burn_payload(item: ItemId) -> Seq<u8> {
    selector_bytes(Selector::Burn) + spec_u32_to_le_bytes(item)
}

/// Payload of a transfer: the transfer tag, then the destination, then the
/// item id.
pub open spec fn transfer_payload(destination: AccountId, item: ItemId) -> Seq<u8> {
    selector_bytes(Selector::Transfer) + destination@ + spec_u32_to_le_bytes(item)
}

/// The shape of every call the adapter issues: the collection is the
/// invocation target, no value rides along, no storage limit is granted,
/// reentry is disallowed, execution must be deterministic, and the caller's
/// computation budget is passed through unmodified.
pub open spec fn adapter_call(
    req: CallRequest,
    caller: AccountId,
    collection: AccountId,
    budget: u64,
    payload: Seq<u8>,
) -> bool {
    &&& req.caller == caller
    &&& req.target == collection
    &&& req.value == 0
    &&& req.budget == budget
    &&& req.storage_limit is None
    &&& req.payload@ == payload
    &&& req.allow_reentry == false
    &&& req.determinism is Deterministic
}

/// Builds the owner-lookup call for `item` in `collection`, paid for by
/// `caller` and bounded by `budget`.
pub fn owner_request(caller: &AccountId, collection: &AccountId, item: ItemId, budget: u64) -> (req:
    CallRequest)
    ensures
        adapter_call(req, *caller, *collection, budget, owner_payload(item)),
{
    let mut args: Vec<Vec<u8>> = Vec::new();
    args.push(item.encode());
    let payload = encode_call(Selector::OwnerOf, &args);
    proof {
        assert(args.deep_view()[0] =~= spec_u32_to_le_bytes(item));
        assert(args.deep_view() =~= seq![spec_u32_to_le_bytes(item)]);
        lemma_concat_one(spec_u32_to_le_bytes(item));
    }
    build_call(caller, collection, 0, budget, None, payload, false, Determinism::Deterministic)
}

/// Interprets the outcome of an owner lookup: exactly the owner the
/// executor reported, or [`Error::DecodeFailure`] when its answer was not a
/// well-formed optional identity, or [`Error::DispatchFailure`] when the
/// invocation itself failed. Never an unrecoverable abort.
pub fn owner_result(outcome: CallOutcome) -> (r: Result<Option<AccountId>, Error>)
    ensures
        outcome is Failure ==> r == Err::<Option<AccountId>, Error>(Error::DispatchFailure),
        outcome matches CallOutcome::Success { data } ==> (match <Option<AccountId> as Canonical>::dec(
            data@,
        ) {
            Some(v) => r == Ok::<Option<AccountId>, Error>(v),
            None => r == Err::<Option<AccountId>, Error>(Error::DecodeFailure),
        }),
{
    match outcome_to_result(outcome) {
        Ok(data) => decode_result::<Option<AccountId>>(&data),
        Err(e) => Err(e),
    }
}

/// Builds the mint call putting `item` into `collection` for `recipient`,
/// who also authorizes and pays for the call.
pub fn mint_into_request(
    collection: &AccountId,
    item: ItemId,
    recipient: &AccountId,
    budget: u64,
) -> (req: CallRequest)
    ensures
        adapter_call(req, *recipient, *collection, budget, mint_payload(*recipient, item)),
{
    let mut args: Vec<Vec<u8>> = Vec::new();
    args.push(recipient.encode());
    args.push(item.encode());
    let payload = encode_call(Selector::Mint, &args);
    proof {
        assert(args.deep_view()[0] =~= recipient@);
        assert(args.deep_view()[1] =~= spec_u32_to_le_bytes(item));
        assert(args.deep_view() =~= seq![recipient@, spec_u32_to_le_bytes(item)]);
        lemma_concat_two(recipient@, spec_u32_to_le_bytes(item));
        assert(selector_bytes(Selector::Mint) + (recipient@ + spec_u32_to_le_bytes(item))
            =~= mint_payload(*recipient, item));
    }
    build_call(recipient, collection, 0, budget, None, payload, false, Determinism::Deterministic)
}

/// Interprets the outcome of a mint: success is owed exactly when the
/// executor accepted the call; a rejected or trapped call is reported as
/// [`Error::DispatchFailure`], never as success.
pub fn mint_into_result(outcome: CallOutcome) -> (r: Result<(), Error>)
    ensures
        r is Ok <==> outcome is Success,
        outcome is Failure ==> r == Err::<(), Error>(Error::DispatchFailure),
{
    match outcome_to_result(outcome) {
        Ok(_) => Ok(()),
        Err(e) => Err(e),
    }
}

/// Builds the burn call removing `item` from `collection`, authorized and
/// paid for by `authorizer`.
pub fn burn_request(collection: &AccountId, item: ItemId, authorizer: &AccountId, budget: u64) -> (
    req: CallRequest)
    ensures
        adapter_call(req, *authorizer, *collection, budget, burn_payload(item)),
{
    let mut args: Vec<Vec<u8>> = Vec::new();
    args.push(item.encode());
    let payload = encode_call(Selector::Burn, &args);
    proof {
        assert(args.deep_view()[0] =~= spec_u32_to_le_bytes(item));
        assert(args.deep_view() =~= seq![spec_u32_to_le_bytes(item)]);
        lemma_concat_one(spec_u32_to_le_bytes(item));
    }
    build_call(authorizer, collection, 0, budget, None, payload, false, Determinism::Deterministic)
}

/// Interprets the outcome of a burn, under the same rule as a mint: the
/// executor's failure is propagated, never swallowed.
pub fn burn_result(outcome: CallOutcome) -> (r: Result<(), Error>)
    ensures
        r is Ok <==> outcome is Success,
        outcome is Failure ==> r == Err::<(), Error>(Error::DispatchFailure),
{
    match outcome_to_result(outcome) {
        Ok(_) => Ok(()),
        Err(e) => Err(e),
    }
}

/// Builds the transfer call moving `item` in `collection` to `destination`,
/// authorized and paid for by `sender`.
pub fn transfer_request(
    sender: &AccountId,
    collection: &AccountId,
    item: ItemId,
    destination: &AccountId,
    budget: u64,
) -> (req: CallRequest)
    ensures
        adapter_call(req, *sender, *collection, budget, transfer_payload(*destination, item)),
{
    let mut args: Vec<Vec<u8>> = Vec::new();
    args.push(destination.encode());
    args.push(item.encode());
    let payload = encode_call(Selector::Transfer, &args);
    proof {
        assert(args.deep_view()[0] =~= destination@);
        assert(args.deep_view()[1] =~= spec_u32_to_le_bytes(item));
        assert(args.deep_view() =~= seq![destination@, spec_u32_to_le_bytes(item)]);
        lemma_concat_two(destination@, spec_u32_to_le_bytes(item));
        assert(selector_bytes(Selector::Transfer) + (destination@ + spec_u32_to_le_bytes(item))
            =~= transfer_payload(*destination, item));
    }
    build_call(sender, collection, 0, budget, None, payload, false, Determinism::Deterministic)
}

/// Interprets the outcome of a transfer, under the same rule as a mint: the
/// executor's failure is propagated, never swallowed.
pub fn transfer_result(outcome: CallOutcome) -> (r: Result<(), Error>)
    ensures
        r is Ok <==> outcome is Success,
        outcome is Failure ==> r == Err::<(), Error>(Error::DispatchFailure),
{
    match outcome_to_result(outcome) {
        Ok(_) => Ok(()),
        Err(e) => Err(e),
    }
}

/// The wrapped protocol has no collection-owner query: the answer is always
/// unknown, for every caller and collection.
pub fn collection_owner(_caller: &AccountId, _collection: &AccountId) -> (r: Option<AccountId>)
    ensures
        r is None,
{
    None
}

/// The wrapped protocol has no attribute query: the answer is always
/// unknown, for every collection, item and key, including items that
/// otherwise exist.
pub fn attribute(_collection: &AccountId, _item: ItemId, _key: &[u8]) -> (r: Option<Vec<u8>>)
    ensures
        r is None,
{
    None
}

/// The wrapped protocol has no collection-attribute query: the answer is
/// always unknown, for every input.
pub fn collection_attribute(_caller: &AccountId, _collection: &AccountId, _key: &[u8]) -> (r: Option<
    Vec<u8>>)
    ensures
        r is None,
{
    None
}

/// Placeholder policy: every transfer is allowed, for every input. Callers
/// must not rely on this for authorization.
pub fn can_transfer(_caller: &AccountId, _collection: &AccountId, _item: ItemId) -> (r: bool)
    ensures
        r == true,
{
    true
}

/// Generic attribute lookup: encodes `key` canonically and would decode the
/// returned bytes as a `V`; since the byte-level query always answers
/// unknown, so does this, for every key and value type.
pub fn typed_attribute<K: Canonical, V: Canonical>(
    collection: &AccountId,
    item: ItemId,
    key: &K,
) -> (r: Option<V>)
    ensures
        r is None,
{
    let encoded = encode_typed_key(key);
    match attribute(collection, item, encoded.as_slice()) {
        Some(bytes) => V::decode(&bytes),
        None => None,
    }
}

/// Generic collection-attribute lookup; always unknown, as
/// [`typed_attribute`] is.
pub fn typed_collection_attribute<K: Canonical, V: Canonical>(
    caller: &AccountId,
    collection: &AccountId,
    key: &K,
) -> (r: Option<V>)
    ensures
        r is None,
{
    let encoded = encode_typed_key(key);
    match collection_attribute(caller, collection, encoded.as_slice()) {
        Some(bytes) => V::decode(&bytes),
        None => None,
    }
}

/// The wrapped protocol has no attribute-mutation call: always refused with
/// [`Error::UnsupportedOperation`], for every input including empty keys
/// and values.
pub fn set_attribute(
    _collection: &AccountId,
    _item: ItemId,
    _key: &[u8],
    _value: &[u8],
) -> (r: Result<(), Error>)
    ensures
        r == Err::<(), Error>(Error::UnsupportedOperation),
{
    Err(Error::UnsupportedOperation)
}

/// Encodes key and value canonically and delegates to [`set_attribute`], so
/// it inherits the same unconditional refusal.
pub fn set_typed_attribute<K: Canonical, V: Canonical>(
    collection: &AccountId,
    item: ItemId,
    key: &K,
    value: &V,
) -> (r: Result<(), Error>)
    ensures
        r == Err::<(), Error>(Error::UnsupportedOperation),
{
    let k = encode_typed_key(key);
    let v = value.encode();
    set_attribute(collection, item, k.as_slice(), v.as_slice())
}

/// The wrapped protocol has no collection-attribute mutation either: always
/// refused, for every input.
pub fn set_collection_attribute(
    _collection: &AccountId,
    _key: &[u8],
    _value: &[u8],
) -> (r: Result<(), Error>)
    ensures
        r == Err::<(), Error>(Error::UnsupportedOperation),
{
    Err(Error::UnsupportedOperation)
}

/// Encodes key and value canonically and delegates to
/// [`set_collection_attribute`], inheriting its unconditional refusal.
pub fn set_typed_collection_attribute<K: Canonical, V: Canonical>(
    collection: &AccountId,
    key: &K,
    value: &V,
) -> (r: Result<(), Error>)
    ensures
        r == Err::<(), Error>(Error::UnsupportedOperation),
{
    let k = encode_typed_key(key);
    let v = value.encode();
    set_collection_attribute(collection, k.as_slice(), v.as_slice())
}

} // verus!
