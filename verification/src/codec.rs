//! The call codec: deterministic, lossless translation between typed values
//! and the binary wire form the external executor understands.
//!
//! A call payload is a fixed 4-byte [`Selector`] followed by the canonical
//! encoding of each argument in declaration order. Response buffers are
//! decoded exactly: a buffer decodes only when it is precisely the canonical
//! encoding of a value, so truncated or padded buffers are rejected rather
//! than silently tolerated, catching protocol drift early.

use crate::types::{AccountId, Error};
use vstd::bytes::{
    lemma_auto_spec_u32_to_from_le_bytes, spec_u32_from_le_bytes, spec_u32_to_le_bytes,
    u32_from_le_bytes, u32_to_le_bytes,
};
use vstd::prelude::*;

verus! {

broadcast use vstd::array::group_array_axioms;

/// The closed set of remote operations. The 4-byte tag of each selector is a
/// fixed contract with the executor: changing one is a breaking protocol
/// change.
#[derive(Clone, Copy, PartialEq, Eq, Debug)]
pub enum Selector {
    /// Look up the owner of an item.
    OwnerOf,
    /// Mint an item for a recipient.
    Mint,
    /// Burn an item.
    Burn,
    /// Transfer an item to a destination.
    Transfer,
}

/// The 4-byte tag that identifies `s` on the wire.
pub open spec fn selector_bytes(s: Selector) -> Seq<u8> {
    match s {
        Selector::OwnerOf => seq![0x56u8, 0x66u8, 0x07u8, 0x08u8],
        Selector::Mint => seq![0x01u8, 0x02u8, 0x03u8, 0x04u8],
        Selector::Burn => seq![0x04u8, 0x03u8, 0x02u8, 0x01u8],
        Selector::Transfer => seq![0x05u8, 0x06u8, 0x07u8, 0x08u8],
    }
}

fn selector_to_bytes(s: Selector) -> (r: Vec<u8>)
    ensures
        r@ == selector_bytes(s),
{
    let mut v: Vec<u8> = Vec::new();
    match s {
        Selector::OwnerOf => {
            v.push(0x56u8);
            v.push(0x66u8);
            v.push(0x07u8);
            v.push(0x08u8);
        },
        Selector::Mint => {
            v.push(0x01u8);
            v.push(0x02u8);
            v.push(0x03u8);
            v.push(0x04u8);
        },
        Selector::Burn => {
            v.push(0x04u8);
            v.push(0x03u8);
            v.push(0x02u8);
            v.push(0x01u8);
        },
        Selector::Transfer => {
            v.push(0x05u8);
            v.push(0x06u8);
            v.push(0x07u8);
            v.push(0x08u8);
        },
    }
    proof {
        assert(v@ =~= selector_bytes(s));
    }
    v
}

/// A type with a canonical, deterministic byte encoding and an exact
/// decoder. Decoding succeeds precisely on canonical encodings and consumes
/// the whole buffer, so every implementation rejects truncated and padded
/// buffers.
pub trait Canonical: Sized {
    /// The canonical byte encoding of this value.
    spec fn enc(&self) -> Seq<u8>;

    /// Exact decode: `Some(v)` only when `bytes` is precisely `v.enc()`.
    spec fn dec(bytes: Seq<u8>) -> Option<Self>;

    /// Encodes this value canonically.
    fn encode(&self) -> (r: Vec<u8>)
        ensures
            r@ == self.enc(),
    ;

    /// Decodes a whole buffer, or reports that it is not a canonical
    /// encoding.
    fn decode(bytes: &Vec<u8>) -> (r: Option<Self>)
        ensures
            r == Self::dec(bytes@),
    ;

    /// Law: decoding a canonical encoding gives back the encoded value.
    proof fn lemma_round_trip(&self)
        ensures
            Self::dec(self.enc()) == Some(*self),
    ;

    /// Law: decoding succeeds only on the canonical encoding of the decoded
    /// value, so no two distinct buffers decode to the same value.
    proof fn lemma_exact(bytes: Seq<u8>, v: Self)
        requires
            Self::dec(bytes) == Some(v),
        ensures
            bytes == v.enc(),
    ;

    /// Law: a strict truncation of this value's encoding, or its encoding
    /// with trailing bytes appended, never decodes.
    proof fn lemma_rejects_resized(&self, bytes: Seq<u8>)
        requires
            (bytes.len() < self.enc().len() && bytes == self.enc().take(bytes.len() as int))
                || (bytes.len() > self.enc().len() && bytes.take(self.enc().len() as int)
                    == self.enc()),
        ensures
            Self::dec(bytes) is None,
    ;
}

impl Canonical for u32 {
    /// Four bytes, little-endian.
    open spec fn enc(&self) -> Seq<u8> {
        spec_u32_to_le_bytes(*self)
    }

    open spec fn dec(bytes: Seq<u8>) -> Option<u32> {
        if bytes.len() == 4 {
            Some(spec_u32_from_le_bytes(bytes))
        } else {
            None
        }
    }

    fn encode(&self) -> (r: Vec<u8>) {
        u32_to_le_bytes(*self)
    }

    fn decode(bytes: &Vec<u8>) -> (r: Option<u32>) {
        if bytes.len() == 4 {
            Some(u32_from_le_bytes(bytes.as_slice()))
        } else {
            None
        }
    }

    proof fn lemma_round_trip(&self) {
        lemma_auto_spec_u32_to_from_le_bytes();
    }

    proof fn lemma_exact(bytes: Seq<u8>, v: Self) {
        lemma_auto_spec_u32_to_from_le_bytes();
    }

    proof fn lemma_rejects_resized(&self, bytes: Seq<u8>) {
        lemma_auto_spec_u32_to_from_le_bytes();
    }
}

impl Canonical for AccountId {
    /// The identity's 32 bytes themselves, in order.
    open spec fn enc(&self) -> Seq<u8> {
        self@
    }

    open spec fn dec(bytes: Seq<u8>) -> Option<AccountId> {
        if bytes.len() == 32 && (exists|a: AccountId| a@ == bytes) {
            Some(choose|a: AccountId| a@ == bytes)
        } else {
            None
        }
    }

    fn encode(&self) -> (r: Vec<u8>) {
        let mut v: Vec<u8> = Vec::new();
        let mut i: usize = 0;
        while i < 32
            invariant
                0 <= i <= 32,
                v@ == self@.take(i as int),
            decreases 32 - i,
        {
            v.push(self.0[i]);
            proof {
                assert(v@ =~= self@.take(i + 1 as int));
            }
            i += 1;
        }
        proof {
            assert(self@.take(32) =~= self@);
        }
        v
    }

    fn decode(bytes: &Vec<u8>) -> (r: Option<AccountId>) {
        if bytes.len() == 32 {
            let a = AccountId(copy_32_bytes(bytes, 0));
            proof {
                assert(a@ =~= bytes@);
                lemma_account_from_view(a, bytes@);
            }
            Some(a)
        } else {
            None
        }
    }

    proof fn lemma_round_trip(&self) {
        lemma_account_from_view(*self, self@);
    }

    proof fn lemma_exact(bytes: Seq<u8>, v: Self) {
        let c = choose|a: AccountId| a@ == bytes;
        assert(c@ == bytes);
    }

    proof fn lemma_rejects_resized(&self, bytes: Seq<u8>) {
    }
}

/// Copies the 32 bytes of `bytes` that start at `offset` into a fresh
/// fixed-size buffer.
fn copy_32_bytes(bytes: &Vec<u8>, offset: usize) -> (r: [u8; 32])
    requires
        offset + 32 <= bytes@.len(),
    ensures
        r@ == bytes@.subrange(offset as int, offset + 32),
{
    let mut r: [u8; 32] = [0u8; 32];
    let n = bytes.len();
    let mut i: usize = 0;
    while i < 32
        invariant
            0 <= i <= 32,
            n == bytes@.len(),
            offset + 32 <= n,
            forall|j: int| 0 <= j < i ==> r@[j] == bytes@[offset + j],
        decreases 32 - i,
    {
        r[i] = bytes[offset + i];
        i += 1;
    }
    proof {
        assert(r@ =~= bytes@.subrange(offset as int, offset + 32));
    }
    r
}

/// Any identity decodes from its own view: the witness behind the exact
/// decoder for identities.
proof fn lemma_account_from_view(a: AccountId, bytes: Seq<u8>)
    requires
        a@ == bytes,
    ensures
        <AccountId as Canonical>::dec(bytes) == Some(a),
{
    assert(bytes.len() == 32);
    assert(exists|x: AccountId| x@ == bytes);
    let c = choose|x: AccountId| x@ == bytes;
    assert(c.0 =~= a.0);
    assert(c =~= a);
}

impl Canonical for Option<AccountId> {
    /// One tag byte, then the identity when present: `0x00` for "no owner",
    /// `0x01` followed by the identity's 32 bytes otherwise.
    open spec fn enc(&self) -> Seq<u8> {
        match self {
            None => seq![0x00u8],
            Some(a) => seq![0x01u8] + a@,
        }
    }

    open spec fn dec(bytes: Seq<u8>) -> Option<Option<AccountId>> {
        if bytes.len() == 1 && bytes[0] == 0x00u8 {
            Some(None)
        } else if bytes.len() == 33 && bytes[0] == 0x01u8 && (exists|a: AccountId|
            a@ == bytes.skip(1)
        ) {
            Some(Some(choose|a: AccountId| a@ == bytes.skip(1)))
        } else {
            None
        }
    }

    fn encode(&self) -> (r: Vec<u8>) {
        let mut v: Vec<u8> = Vec::new();
        match self {
            None => {
                v.push(0x00u8);
                proof {
                    assert(v@ =~= self.enc());
                }
            },
            Some(a) => {
                v.push(0x01u8);
                let mut rest = a.encode();
                v.append(&mut rest);
                proof {
                    assert(v@ =~= self.enc());
                }
            },
        }
        v
    }

    fn decode(bytes: &Vec<u8>) -> (r: Option<Option<AccountId>>) {
        if bytes.len() == 1 && bytes[0] == 0x00u8 {
            Some(None)
        } else if bytes.len() == 33 && bytes[0] == 0x01u8 {
            let a = AccountId(copy_32_bytes(bytes, 1));
            proof {
                assert(a@ =~= bytes@.skip(1));
                lemma_some_account_from_view(a, bytes@);
            }
            Some(Some(a))
        } else {
            None
        }
    }

    proof fn lemma_round_trip(&self) {
        match self {
            None => {
                assert(self.enc().len() == 1);
            },
            Some(a) => {
                let bytes = self.enc();
                assert(bytes.len() == 33);
                assert(bytes[0] == 0x01u8);
                assert(a@ =~= bytes.skip(1));
                lemma_some_account_from_view(*a, bytes);
            },
        }
    }

    proof fn lemma_exact(bytes: Seq<u8>, v: Self) {
        if bytes.len() == 1 && bytes[0] == 0x00u8 {
            assert(bytes =~= v.enc());
        } else {
            let c = choose|a: AccountId| a@ == bytes.skip(1);
            assert(c@ == bytes.skip(1));
            assert(bytes =~= seq![0x01u8] + c@);
        }
    }

    proof fn lemma_rejects_resized(&self, bytes: Seq<u8>) {
        match self {
            None => {
                // A truncation is empty; a padding keeps the 0x00 tag but is
                // longer than one byte, and a 33-byte buffer tagged 0x00 does
                // not decode either.
                if bytes.len() > 1 {
                    assert(bytes[0] == self.enc().take(1)[0]);
                    assert(bytes[0] == 0x00u8);
                }
            },
            Some(_) => {
                // A truncation is shorter than 33 bytes and, when one byte
                // long, still carries the 0x01 tag; a padding is longer than
                // 33 bytes. Neither shape decodes.
                if bytes.len() == 1 {
                    assert(bytes[0] == self.enc().take(1)[0]);
                    assert(bytes[0] == 0x01u8);
                }
            },
        }
    }
}

/// Like [`lemma_account_from_view`], for the identity carried behind a
/// present-owner tag.
proof fn lemma_some_account_from_view(a: AccountId, bytes: Seq<u8>)
    requires
        bytes.len() == 33,
        bytes[0] == 0x01u8,
        a@ == bytes.skip(1),
    ensures
        <Option<AccountId> as Canonical>::dec(bytes) == Some(Some(a)),
{
    assert(exists|x: AccountId| x@ == bytes.skip(1));
    let c = choose|x: AccountId| x@ == bytes.skip(1);
    assert(c.0 =~= a.0);
    assert(c =~= a);
}

/// The concatenation of a sequence of byte strings, in order.
pub open spec fn concat_bytes(args: Seq<Seq<u8>>) -> Seq<u8>
    decreases args.len(),
{
    if args.len() == 0 {
        Seq::empty()
    } else {
        args.first() + concat_bytes(args.drop_first())
    }
}

/// Concatenating one byte string is that byte string.
pub proof fn lemma_concat_one(a: Seq<u8>)
    ensures
        concat_bytes(seq![a]) == a,
{
    assert(seq![a].len() == 1);
    assert(seq![a].first() == a);
    assert(seq![a].drop_first() =~= Seq::<Seq<u8>>::empty());
    assert(concat_bytes(Seq::<Seq<u8>>::empty()) == Seq::<u8>::empty());
    assert(concat_bytes(seq![a]) == a + Seq::<u8>::empty());
    assert(a + Seq::<u8>::empty() =~= a);
}

/// Concatenating two byte strings appends the second to the first.
pub proof fn lemma_concat_two(a: Seq<u8>, b: Seq<u8>)
    ensures
        concat_bytes(seq![a, b]) == a + b,
{
    assert(seq![a, b].drop_first() =~= seq![b]);
    lemma_concat_one(b);
    assert(concat_bytes(seq![a, b]) =~= a + b);
}

/// Taking one more argument extends the concatenation by that argument's
/// bytes.
proof fn lemma_concat_bytes_take(args: Seq<Seq<u8>>, i: int)
    requires
        0 <= i < args.len(),
    ensures
        concat_bytes(args.take(i + 1)) == concat_bytes(args.take(i)) + args[i],
    decreases i,
{
    if i == 0 {
        assert(args.take(0) =~= Seq::<Seq<u8>>::empty());
        assert(args.take(1) =~= seq![args[0]]);
        lemma_concat_one(args[0]);
        assert(concat_bytes(args.take(i + 1)) =~= concat_bytes(args.take(i)) + args[i]);
    } else {
        let rest = args.drop_first();
        lemma_concat_bytes_take(rest, i - 1);
        assert(args.take(i + 1).drop_first() =~= rest.take(i));
        assert(args.take(i).drop_first() =~= rest.take(i - 1));
        assert(args.take(i + 1).first() == args[0]);
        assert(args.take(i).first() == args[0]);
        assert(concat_bytes(args.take(i + 1)) == args[0] + concat_bytes(rest.take(i)));
        assert(concat_bytes(args.take(i)) == args[0] + concat_bytes(rest.take(i - 1)));
        assert(args[0] + (concat_bytes(rest.take(i - 1)) + rest[i - 1]) =~= (args[0]
            + concat_bytes(rest.take(i - 1))) + rest[i - 1]);
        assert(rest[i - 1] == args[i]);
    }
}

/// Builds a call payload: the selector's 4-byte tag, then each pre-encoded
/// argument's bytes, in the order given. No argument may be omitted or
/// reordered; the order is part of the protocol contract.
pub fn encode_call(selector: Selector, args: &Vec<Vec<u8>>) -> (p: Vec<u8>)
    ensures
        p@ == selector_bytes(selector) + concat_bytes(args.deep_view()),
{
    let ghost all = args.deep_view();
    let mut p = selector_to_bytes(selector);
    let mut i: usize = 0;
    proof {
        assert(all.take(0) =~= Seq::<Seq<u8>>::empty());
        assert(p@ =~= selector_bytes(selector) + concat_bytes(all.take(0)));
    }
    while i < args.len()
        invariant
            0 <= i <= args.len(),
            all == args.deep_view(),
            all.len() == args.len(),
            p@ == selector_bytes(selector) + concat_bytes(all.take(i as int)),
        decreases args.len() - i,
    {
        p.extend_from_slice(args[i].as_slice());
        proof {
            assert(all[i as int] =~= args@[i as int]@);
            lemma_concat_bytes_take(all, i as int);
            assert(p@ =~= selector_bytes(selector) + concat_bytes(all.take(i + 1 as int)));
        }
        i += 1;
    }
    proof {
        assert(all.take(args.len() as int) =~= all);
    }
    p
}

/// Attempts canonical decoding of `buffer` into a `V`. Fails with
/// [`Error::DecodeFailure`] when the buffer is malformed, truncated, or has
/// trailing unconsumed bytes: anything but the exact canonical encoding of a
/// value is rejected.
pub fn decode_result<V: Canonical>(buffer: &Vec<u8>) -> (r: Result<V, Error>)
    ensures
        (match V::dec(buffer@) {
            Some(v) => r == Ok::<V, Error>(v),
            None => r == Err::<V, Error>(Error::DecodeFailure),
        }),
{
    match V::decode(buffer) {
        Some(v) => Ok(v),
        None => Err(Error::DecodeFailure),
    }
}

/// Canonically encodes a lookup key, with no selector prefix: the byte form
/// of the key itself is the outer protocol's lookup key.
pub fn encode_typed_key<K: Canonical>(key: &K) -> (r: Vec<u8>)
    ensures
        r@ == key.enc(),
{
    key.encode()
}

/// For every value of every codec type, decoding the canonical encoding
/// round-trips to the original value.
pub proof fn lemma_codec_round_trip<V: Canonical>(v: V)
    ensures
        V::dec(v.enc()) == Some(v),
{
    v.lemma_round_trip();
}

/// A buffer decodes only when it is exactly the canonical encoding of the
/// decoded value: no buffer with extra or missing bytes slips through.
pub proof fn lemma_codec_exact<V: Canonical>(bytes: Seq<u8>, v: V)
    requires
        V::dec(bytes) == Some(v),
    ensures
        bytes == v.enc(),
{
    V::lemma_exact(bytes, v);
}

/// Decoding a truncated or padded encoding always fails: dropping bytes
/// from the end of a canonical encoding, or appending bytes to it, yields a
/// buffer no value decodes from.
pub proof fn lemma_codec_rejects_resized<V: Canonical>(v: V, bytes: Seq<u8>)
    requires
        (bytes.len() < v.enc().len() && bytes == v.enc().take(bytes.len() as int)) || (bytes.len()
            > v.enc().len() && bytes.take(v.enc().len() as int) == v.enc()),
    ensures
        V::dec(bytes) is None,
{
    v.lemma_rejects_resized(bytes);
}

} // verus!
