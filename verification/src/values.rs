//! Typed values and their canonical binary encoding.
//!
//! A parsed argument value is one of the base types of the registry,
//! possibly wrapped in an optional.  Encoding is canonical and
//! deterministic: the same value always yields the same bytes, and
//! decoding an encoded value with its own tag reproduces the value
//! (proved in [`lemma_decode_encode_value`]).
//!
//! Wire format, per base type:
//! - `bool`: one byte, `1` for true, `0` for false;
//! - `i32`/`u32`: four little-endian bytes; `i64`/`u64`: eight;
//!   `u8`: one byte; signed types use their two's-complement bits;
//! - `u128`/`u256`/`u512`: one length byte, then that many little-endian
//!   bytes, trailing zeros trimmed;
//! - `unit`: empty; `string`: four-byte little-endian length, then the
//!   bytes;
//! - `key`: a discriminant byte (`0` account, `1` hash, `2` uref), then
//!   the 32-byte body, plus an access-rights byte for urefs;
//! - `account_hash`: the raw 32 bytes; `uref`: 32 bytes plus the
//!   access-rights byte;
//! - `public_key`: an algorithm byte (`1` ed25519 with 32 key bytes,
//!   `2` secp256k1 with 33);
//! - an optional value prefixes `1` to its payload's encoding; an absent
//!   one is the single byte `0`.
use vstd::arithmetic::power::lemma_pow_increases;
use vstd::prelude::*;

use crate::bytes_le::{
    le_to_nat,
    lemma_last_nonzero_min,
    lemma_le_to_nat_bound,
    lemma_le_to_nat_canonical,
    lemma_min_len_le,
    lemma_min_repr_last_nonzero,
    lemma_nat_to_le_len,
    lemma_nat_to_le_roundtrip,
    lemma_pow256_small,
    min_len,
    min_repr,
    nat_to_le,
    pow256,
};
use crate::bytesutil::{copy_range, push_bytes, push_le_bytes, read_le_u64};
use crate::tags::{BaseTag, TypeTag};

verus! {

/// The body of a `key` value: which kind of key, with its bytes.
#[derive(Clone, Debug, PartialEq, Eq)]
pub enum KeyValue {
    /// An account key: a 32-byte account hash.
    Account(Vec<u8>),
    /// A hash key: a 32-byte hash.
    Hash(Vec<u8>),
    /// A uref key: a 32-byte address and an access-rights byte.
    URef(Vec<u8>, u8),
}

/// The body of a `public_key` value: the signing algorithm with the
/// compressed key bytes.
#[derive(Clone, Debug, PartialEq, Eq)]
pub enum PublicKeyValue {
    /// An ed25519 key: 32 bytes.
    Ed25519(Vec<u8>),
    /// A secp256k1 key: 33 bytes (compressed point).
    Secp256k1(Vec<u8>),
}

/// A value of one of the base types.  The three wide unsigned types hold
/// their minimal little-endian bytes.
#[derive(Clone, Debug, PartialEq, Eq)]
pub enum PlainValue {
    Bool(bool),
    I32(i32),
    I64(i64),
    U8(u8),
    U32(u32),
    U64(u64),
    U128(Vec<u8>),
    U256(Vec<u8>),
    U512(Vec<u8>),
    Unit,
    Str(Vec<u8>),
    Key(KeyValue),
    AccountHash(Vec<u8>),
    URef(Vec<u8>, u8),
    PublicKey(PublicKeyValue),
}

/// A full value: plain, or an optional wrapper that is absent or present.
#[derive(Clone, Debug, PartialEq, Eq)]
pub enum Value {
    Plain(PlainValue),
    OptNone(BaseTag),
    OptSome(PlainValue),
}

/// Mathematical model of a [`KeyValue`].
pub enum KeyModel {
    Account(Seq<u8>),
    Hash(Seq<u8>),
    URef(Seq<u8>, u8),
}

/// Mathematical model of a [`PublicKeyValue`].
pub enum PublicKeyModel {
    Ed25519(Seq<u8>),
    Secp256k1(Seq<u8>),
}

/// Mathematical model of a [`PlainValue`]; the wide unsigned types are
/// modelled by their numeric value.
pub enum PlainModel {
    Bool(bool),
    I32(i32),
    I64(i64),
    U8(u8),
    U32(u32),
    U64(u64),
    U128(nat),
    U256(nat),
    U512(nat),
    Unit,
    Str(Seq<u8>),
    Key(KeyModel),
    AccountHash(Seq<u8>),
    URef(Seq<u8>, u8),
    PublicKey(PublicKeyModel),
}

/// Mathematical model of a [`Value`].
pub enum ValueModel {
    Plain(PlainModel),
    OptNone(BaseTag),
    OptSome(PlainModel),
}

impl View for KeyValue {
    type V = KeyModel;

    open spec fn view(&self) -> KeyModel {
        match self {
            KeyValue::Account(h) => KeyModel::Account(h@),
            KeyValue::Hash(h) => KeyModel::Hash(h@),
            KeyValue::URef(a, r) => KeyModel::URef(a@, *r),
        }
    }
}

impl View for PublicKeyValue {
    type V = PublicKeyModel;

    open spec fn view(&self) -> PublicKeyModel {
        match self {
            PublicKeyValue::Ed25519(k) => PublicKeyModel::Ed25519(k@),
            PublicKeyValue::Secp256k1(k) => PublicKeyModel::Secp256k1(k@),
        }
    }
}

impl View for PlainValue {
    type V = PlainModel;

    open spec fn view(&self) -> PlainModel {
        match self {
            PlainValue::Bool(b) => PlainModel::Bool(*b),
            PlainValue::I32(i) => PlainModel::I32(*i),
            PlainValue::I64(i) => PlainModel::I64(*i),
            PlainValue::U8(n) => PlainModel::U8(*n),
            PlainValue::U32(n) => PlainModel::U32(*n),
            PlainValue::U64(n) => PlainModel::U64(*n),
            PlainValue::U128(b) => PlainModel::U128(le_to_nat(b@)),
            PlainValue::U256(b) => PlainModel::U256(le_to_nat(b@)),
            PlainValue::U512(b) => PlainModel::U512(le_to_nat(b@)),
            PlainValue::Unit => PlainModel::Unit,
            PlainValue::Str(s) => PlainModel::Str(s@),
            PlainValue::Key(k) => PlainModel::Key(k@),
            PlainValue::AccountHash(h) => PlainModel::AccountHash(h@),
            PlainValue::URef(a, r) => PlainModel::URef(a@, *r),
            PlainValue::PublicKey(p) => PlainModel::PublicKey(p@),
        }
    }
}

impl View for Value {
    type V = ValueModel;

    open spec fn view(&self) -> ValueModel {
        match self {
            Value::Plain(p) => ValueModel::Plain(p@),
            Value::OptNone(t) => ValueModel::OptNone(*t),
            Value::OptSome(p) => ValueModel::OptSome(p@),
        }
    }
}

/// The base tag a plain model value belongs to.
pub open spec fn base_tag_of_plain(m: PlainModel) -> BaseTag {
    match m {
        PlainModel::Bool(..) => BaseTag::Bool,
        PlainModel::I32(..) => BaseTag::I32,
        PlainModel::I64(..) => BaseTag::I64,
        PlainModel::U8(..) => BaseTag::U8,
        PlainModel::U32(..) => BaseTag::U32,
        PlainModel::U64(..) => BaseTag::U64,
        PlainModel::U128(..) => BaseTag::U128,
        PlainModel::U256(..) => BaseTag::U256,
        PlainModel::U512(..) => BaseTag::U512,
        PlainModel::Unit => BaseTag::Unit,
        PlainModel::Str(..) => BaseTag::Str,
        PlainModel::Key(..) => BaseTag::Key,
        PlainModel::AccountHash(..) => BaseTag::AccountHash,
        PlainModel::URef(..) => BaseTag::URef,
        PlainModel::PublicKey(..) => BaseTag::PublicKey,
    }
}

/// The type tag a model value belongs to.
pub open spec fn tag_of_value(m: ValueModel) -> TypeTag {
    match m {
        ValueModel::Plain(p) => TypeTag { optional: false, base: base_tag_of_plain(p) },
        ValueModel::OptNone(b) => TypeTag { optional: true, base: b },
        ValueModel::OptSome(p) => TypeTag { optional: true, base: base_tag_of_plain(p) },
    }
}

/// Well-formedness of a plain model value: byte bodies have their fixed
/// lengths, numbers fit their width, access rights fit three bits.
pub open spec fn plain_model_wf(m: PlainModel) -> bool {
    match m {
        PlainModel::U128(n) => n < pow256(16),
        PlainModel::U256(n) => n < pow256(32),
        PlainModel::U512(n) => n < pow256(64),
        PlainModel::Str(s) => s.len() <= u32::MAX,
        PlainModel::Key(k) => match k {
            KeyModel::Account(h) => h.len() == 32,
            KeyModel::Hash(h) => h.len() == 32,
            KeyModel::URef(a, r) => a.len() == 32 && r <= 7,
        },
        PlainModel::AccountHash(h) => h.len() == 32,
        PlainModel::URef(a, r) => a.len() == 32 && r <= 7,
        PlainModel::PublicKey(p) => match p {
            PublicKeyModel::Ed25519(k) => k.len() == 32,
            PublicKeyModel::Secp256k1(k) => k.len() == 33,
        },
        _ => true,
    }
}

/// Well-formedness of a model value.
pub open spec fn value_model_wf(m: ValueModel) -> bool {
    match m {
        ValueModel::Plain(p) => plain_model_wf(p),
        ValueModel::OptNone(..) => true,
        ValueModel::OptSome(p) => plain_model_wf(p),
    }
}

/// Is `v` a minimal little-endian representation of at most `w` bytes?
pub open spec fn big_wf(v: Seq<u8>, w: nat) -> bool {
    v.len() <= w && (v.len() == 0 || v.last() != 0)
}

/// Well-formedness of an executable plain value: as the model, and the
/// wide unsigned bytes are minimal.
pub open spec fn plain_value_wf(v: PlainValue) -> bool {
    match v {
        PlainValue::U128(b) => big_wf(b@, 16),
        PlainValue::U256(b) => big_wf(b@, 32),
        PlainValue::U512(b) => big_wf(b@, 64),
        _ => plain_model_wf(v@),
    }
}

/// Well-formedness of an executable value.
pub open spec fn value_wf(v: Value) -> bool {
    match v {
        Value::Plain(p) => plain_value_wf(p),
        Value::OptNone(..) => true,
        Value::OptSome(p) => plain_value_wf(p),
    }
}

/// A minimal representation of at most `w` bytes denotes a value below
/// `256^w`, and is the canonical bytes of that value.
pub proof fn lemma_big_wf_min(s: Seq<u8>, w: nat)
    requires
        big_wf(s, w),
    ensures
        le_to_nat(s) < pow256(w),
        s == min_repr(le_to_nat(s)),
        min_len(le_to_nat(s)) == s.len(),
{
    lemma_le_to_nat_bound(s);
    lemma_pow_increases(256, s.len(), w);
    vstd::arithmetic::power::lemma_pow_positive(256, s.len());
    vstd::arithmetic::power::lemma_pow_positive(256, w);
    assert(vstd::arithmetic::power::pow(256, s.len()) <= vstd::arithmetic::power::pow(256, w));
    assert(pow256(s.len()) <= pow256(w));
    lemma_last_nonzero_min(s);
    lemma_le_to_nat_canonical(s);
    assert(s =~= min_repr(le_to_nat(s)));
}

/// The canonical encoding of a plain model value.
pub open spec fn encode_plain(m: PlainModel) -> Seq<u8> {
    match m {
        PlainModel::Bool(b) => seq![if b { 1u8 } else { 0u8 }],
        PlainModel::I32(i) => nat_to_le((i as u32) as nat, 4),
        PlainModel::I64(i) => nat_to_le((i as u64) as nat, 8),
        PlainModel::U8(n) => seq![n],
        PlainModel::U32(n) => nat_to_le(n as nat, 4),
        PlainModel::U64(n) => nat_to_le(n as nat, 8),
        PlainModel::U128(n) => seq![min_len(n) as u8] + min_repr(n),
        PlainModel::U256(n) => seq![min_len(n) as u8] + min_repr(n),
        PlainModel::U512(n) => seq![min_len(n) as u8] + min_repr(n),
        PlainModel::Unit => Seq::empty(),
        PlainModel::Str(s) => nat_to_le(s.len(), 4) + s,
        PlainModel::Key(k) => match k {
            KeyModel::Account(h) => seq![0u8] + h,
            KeyModel::Hash(h) => seq![1u8] + h,
            KeyModel::URef(a, r) => seq![2u8] + a + seq![r],
        },
        PlainModel::AccountHash(h) => h,
        PlainModel::URef(a, r) => a + seq![r],
        PlainModel::PublicKey(p) => match p {
            PublicKeyModel::Ed25519(k) => seq![1u8] + k,
            PublicKeyModel::Secp256k1(k) => seq![2u8] + k,
        },
    }
}

/// The canonical encoding of a model value.
pub open spec fn encode_value(m: ValueModel) -> Seq<u8> {
    match m {
        ValueModel::Plain(p) => encode_plain(p),
        ValueModel::OptNone(..) => seq![0u8],
        ValueModel::OptSome(p) => seq![1u8] + encode_plain(p),
    }
}

/// Encodes a plain value.
pub fn encode_plain_value(v: &PlainValue) -> (out: Vec<u8>)
    requires
        plain_value_wf(*v),
    ensures
        out@ == encode_plain(v@),
{
    proof {
        lemma_pow256_small();
    }
    let mut out: Vec<u8> = Vec::new();
    match v {
        PlainValue::Bool(b) => {
            if *b {
                out.push(1);
            } else {
                out.push(0);
            }
        },
        PlainValue::I32(i) => {
            push_le_bytes(&mut out, (*i as u32) as u64, 4);
        },
        PlainValue::I64(i) => {
            push_le_bytes(&mut out, *i as u64, 8);
        },
        PlainValue::U8(n) => {
            out.push(*n);
        },
        PlainValue::U32(n) => {
            push_le_bytes(&mut out, *n as u64, 4);
        },
        PlainValue::U64(n) => {
            push_le_bytes(&mut out, *n, 8);
        },
        PlainValue::U128(b) => {
            proof {
                lemma_big_wf_min(b@, 16);
            }
            out.push(b.len() as u8);
            push_bytes(&mut out, b.as_slice());
        },
        PlainValue::U256(b) => {
            proof {
                lemma_big_wf_min(b@, 32);
            }
            out.push(b.len() as u8);
            push_bytes(&mut out, b.as_slice());
        },
        PlainValue::U512(b) => {
            proof {
                lemma_big_wf_min(b@, 64);
            }
            out.push(b.len() as u8);
            push_bytes(&mut out, b.as_slice());
        },
        PlainValue::Unit => {},
        PlainValue::Str(s) => {
            push_le_bytes(&mut out, s.len() as u64, 4);
            push_bytes(&mut out, s.as_slice());
        },
        PlainValue::Key(k) => {
            match k {
                KeyValue::Account(h) => {
                    out.push(0);
                    push_bytes(&mut out, h.as_slice());
                },
                KeyValue::Hash(h) => {
                    out.push(1);
                    push_bytes(&mut out, h.as_slice());
                },
                KeyValue::URef(a, r) => {
                    out.push(2);
                    push_bytes(&mut out, a.as_slice());
                    out.push(*r);
                },
            }
        },
        PlainValue::AccountHash(h) => {
            push_bytes(&mut out, h.as_slice());
        },
        PlainValue::URef(a, r) => {
            push_bytes(&mut out, a.as_slice());
            out.push(*r);
        },
        PlainValue::PublicKey(p) => {
            match p {
                PublicKeyValue::Ed25519(k) => {
                    out.push(1);
                    push_bytes(&mut out, k.as_slice());
                },
                PublicKeyValue::Secp256k1(k) => {
                    out.push(2);
                    push_bytes(&mut out, k.as_slice());
                },
            }
        },
    }
    proof {
        assert(out@ =~= encode_plain(v@));
    }
    out
}

/// Encodes a value: the plain payload, with the optional presence byte
/// where the type is an optional.
pub fn encode_exec_value(v: &Value) -> (out: Vec<u8>)
    requires
        value_wf(*v),
    ensures
        out@ == encode_value(v@),
{
    match v {
        Value::Plain(p) => encode_plain_value(p),
        Value::OptNone(..) => {
            let mut out: Vec<u8> = Vec::new();
            out.push(0);
            proof {
                assert(out@ =~= seq![0u8]);
            }
            out
        },
        Value::OptSome(p) => {
            let inner = encode_plain_value(p);
            let mut out: Vec<u8> = Vec::new();
            out.push(1);
            push_bytes(&mut out, inner.as_slice());
            proof {
                assert(out@ =~= seq![1u8] + encode_plain(p@));
            }
            out
        },
    }
}

/// Decodes a length-prefixed minimal little-endian number of at most `w`
/// bytes.
pub open spec fn big_decode(s: Seq<u8>, w: nat) -> Option<nat> {
    if s.len() >= 1 && (s[0] as nat) == (s.len() - 1) as nat && s.len() - 1 <= w && (s.len() == 1
        || s.last() != 0) {
        Some(le_to_nat(s.skip(1)))
    } else {
        None
    }
}

/// Decodes the payload of a plain value of base type `t`.  The whole of
/// `s` must be consumed; `None` on any mismatch.
pub open spec fn decode_plain(t: BaseTag, s: Seq<u8>) -> Option<PlainModel> {
    match t {
        BaseTag::Bool => if s == seq![1u8] {
            Some(PlainModel::Bool(true))
        } else if s == seq![0u8] {
            Some(PlainModel::Bool(false))
        } else {
            None
        },
        BaseTag::I32 => if s.len() == 4 {
            Some(PlainModel::I32((le_to_nat(s) as u32) as i32))
        } else {
            None
        },
        BaseTag::I64 => if s.len() == 8 {
            Some(PlainModel::I64((le_to_nat(s) as u64) as i64))
        } else {
            None
        },
        BaseTag::U8 => if s.len() == 1 {
            Some(PlainModel::U8(s[0]))
        } else {
            None
        },
        BaseTag::U32 => if s.len() == 4 {
            Some(PlainModel::U32(le_to_nat(s) as u32))
        } else {
            None
        },
        BaseTag::U64 => if s.len() == 8 {
            Some(PlainModel::U64(le_to_nat(s) as u64))
        } else {
            None
        },
        BaseTag::U128 => match big_decode(s, 16) {
            Some(n) => Some(PlainModel::U128(n)),
            None => None,
        },
        BaseTag::U256 => match big_decode(s, 32) {
            Some(n) => Some(PlainModel::U256(n)),
            None => None,
        },
        BaseTag::U512 => match big_decode(s, 64) {
            Some(n) => Some(PlainModel::U512(n)),
            None => None,
        },
        BaseTag::Unit => if s.len() == 0 {
            Some(PlainModel::Unit)
        } else {
            None
        },
        BaseTag::Str => if s.len() >= 4 && le_to_nat(s.take(4)) == (s.len() - 4) as nat {
            Some(PlainModel::Str(s.skip(4)))
        } else {
            None
        },
        BaseTag::Key => if s.len() == 33 && s[0] == 0 {
            Some(PlainModel::Key(KeyModel::Account(s.skip(1))))
        } else if s.len() == 33 && s[0] == 1 {
            Some(PlainModel::Key(KeyModel::Hash(s.skip(1))))
        } else if s.len() == 34 && s[0] == 2 && s[33] <= 7 {
            Some(PlainModel::Key(KeyModel::URef(s.subrange(1, 33), s[33])))
        } else {
            None
        },
        BaseTag::AccountHash => if s.len() == 32 {
            Some(PlainModel::AccountHash(s))
        } else {
            None
        },
        BaseTag::URef => if s.len() == 33 && s[32] <= 7 {
            Some(PlainModel::URef(s.take(32), s[32]))
        } else {
            None
        },
        BaseTag::PublicKey => if s.len() == 33 && s[0] == 1 {
            Some(PlainModel::PublicKey(PublicKeyModel::Ed25519(s.skip(1))))
        } else if s.len() == 34 && s[0] == 2 {
            Some(PlainModel::PublicKey(PublicKeyModel::Secp256k1(s.skip(1))))
        } else {
            None
        },
    }
}

/// Decodes a full value of type `t`: the plain payload, or the optional
/// presence byte followed by one.
pub open spec fn decode_value(t: TypeTag, s: Seq<u8>) -> Option<ValueModel> {
    if !t.optional {
        match decode_plain(t.base, s) {
            Some(p) => Some(ValueModel::Plain(p)),
            None => None,
        }
    } else {
        if s == seq![0u8] {
            Some(ValueModel::OptNone(t.base))
        } else if s.len() >= 1 && s[0] == 1 {
            match decode_plain(t.base, s.skip(1)) {
                Some(p) => Some(ValueModel::OptSome(p)),
                None => None,
            }
        } else {
            None
        }
    }
}

/// Casting a 32-bit value to signed and back to its bits is the identity.
proof fn lemma_i32_cast_roundtrip(i: i32)
    ensures
        ((i as u32) as i32) == i,
{
    assert(((i as u32) as i32) == i) by (bit_vector);
}

/// Casting a 64-bit value to signed and back to its bits is the identity.
proof fn lemma_i64_cast_roundtrip(i: i64)
    ensures
        ((i as u64) as i64) == i,
{
    assert(((i as u64) as i64) == i) by (bit_vector);
}

/// Round trip for plain values: decoding a canonical encoding with its
/// own base tag reproduces the value.
pub proof fn lemma_decode_encode_plain(p: PlainModel)
    requires
        plain_model_wf(p),
    ensures
        decode_plain(base_tag_of_plain(p), encode_plain(p)) == Some(p),
{
    lemma_pow256_small();
    let s = encode_plain(p);
    match p {
        PlainModel::Bool(b) => {
            if b {
                assert(s == seq![1u8]);
            } else {
                assert(s != seq![1u8]) by {
                    assert(s[0] == 0u8);
                }
                assert(s == seq![0u8]);
            }
        },
        PlainModel::I32(i) => {
            lemma_nat_to_le_len((i as u32) as nat, 4);
            lemma_nat_to_le_roundtrip((i as u32) as nat, 4);
            lemma_i32_cast_roundtrip(i);
        },
        PlainModel::I64(i) => {
            lemma_nat_to_le_len((i as u64) as nat, 8);
            lemma_nat_to_le_roundtrip((i as u64) as nat, 8);
            lemma_i64_cast_roundtrip(i);
        },
        PlainModel::U8(..) => {},
        PlainModel::U32(n) => {
            lemma_nat_to_le_len(n as nat, 4);
            lemma_nat_to_le_roundtrip(n as nat, 4);
        },
        PlainModel::U64(n) => {
            lemma_nat_to_le_len(n as nat, 8);
            lemma_nat_to_le_roundtrip(n as nat, 8);
        },
        PlainModel::U128(n) => {
            lemma_big_roundtrip(n, 16);
        },
        PlainModel::U256(n) => {
            lemma_big_roundtrip(n, 32);
        },
        PlainModel::U512(n) => {
            lemma_big_roundtrip(n, 64);
        },
        PlainModel::Unit => {},
        PlainModel::Str(t) => {
            lemma_nat_to_le_len(t.len(), 4);
            lemma_nat_to_le_roundtrip(t.len(), 4);
            assert(s.take(4) =~= nat_to_le(t.len(), 4));
            assert(s.skip(4) =~= t);
        },
        PlainModel::Key(k) => {
            match k {
                KeyModel::Account(h) => {
                    assert(s.skip(1) =~= h);
                },
                KeyModel::Hash(h) => {
                    assert(s.skip(1) =~= h);
                },
                KeyModel::URef(a, r) => {
                    assert(s.len() == 34);
                    assert(s[33] == r);
                    assert(s.subrange(1, 33) =~= a);
                },
            }
        },
        PlainModel::AccountHash(..) => {},
        PlainModel::URef(a, r) => {
            assert(s.len() == 33);
            assert(s[32] == r);
            assert(s.take(32) =~= a);
        },
        PlainModel::PublicKey(k) => {
            match k {
                PublicKeyModel::Ed25519(b) => {
                    assert(s.skip(1) =~= b);
                },
                PublicKeyModel::Secp256k1(b) => {
                    assert(s.skip(1) =~= b);
                },
            }
        },
    }
}

/// Round trip for the length-prefixed wide unsigned encoding.
proof fn lemma_big_roundtrip(n: nat, w: nat)
    requires
        n < pow256(w),
        w <= 255,
    ensures
        big_decode(seq![min_len(n) as u8] + min_repr(n), w) == Some(n),
{
    let s = seq![min_len(n) as u8] + min_repr(n);
    lemma_min_len_le(n, w);
    lemma_nat_to_le_len(n, min_len(n));
    assert(s.len() == 1 + min_len(n));
    assert(s[0] == min_len(n) as u8);
    if n == 0 {
        assert(min_len(n) == 0);
        assert(s.len() == 1);
    } else {
        lemma_min_repr_last_nonzero(n);
        assert(s.last() == min_repr(n).last());
    }
    assert(s.skip(1) =~= min_repr(n));
    lemma_min_len_le(n, min_len(n));
    lemma_nat_to_le_roundtrip(n, min_len(n));
}

/// The round-trip law: decoding the canonical encoding of any
/// well-formed value, with the value's own type tag, reproduces the
/// value exactly.
pub proof fn lemma_decode_encode_value(m: ValueModel)
    requires
        value_model_wf(m),
    ensures
        decode_value(tag_of_value(m), encode_value(m)) == Some(m),
{
    match m {
        ValueModel::Plain(p) => {
            lemma_decode_encode_plain(p);
        },
        ValueModel::OptNone(..) => {},
        ValueModel::OptSome(p) => {
            let s = encode_value(m);
            assert(s[0] == 1u8);
            assert(s != seq![0u8]);
            assert(s.skip(1) =~= encode_plain(p));
            lemma_decode_encode_plain(p);
        },
    }
}

/// Casting 32 bits to signed and back preserves the bits.
proof fn lemma_u32_cast_roundtrip(n: u32)
    ensures
        ((n as i32) as u32) == n,
{
    assert(((n as i32) as u32) == n) by (bit_vector);
}

/// Casting 64 bits to signed and back preserves the bits.
proof fn lemma_u64_cast_roundtrip(n: u64)
    ensures
        ((n as i64) as u64) == n,
{
    assert(((n as i64) as u64) == n) by (bit_vector);
}

/// Encoding is canonical: re-encoding a decoded plain value reproduces
/// the bytes exactly, so each value has one byte form and each byte
/// form one value.
pub proof fn lemma_encode_decode_plain(t: BaseTag, s: Seq<u8>)
    ensures
        decode_plain(t, s) matches Some(p) ==> encode_plain(p) == s,
{
    lemma_pow256_small();
    match t {
        BaseTag::Bool => {
            if s == seq![1u8] {
                assert(encode_plain(PlainModel::Bool(true)) =~= s);
            } else if s == seq![0u8] {
                assert(encode_plain(PlainModel::Bool(false)) =~= s);
            }
        },
        BaseTag::I32 => {
            if s.len() == 4 {
                let n = le_to_nat(s);
                lemma_le_to_nat_bound(s);
                lemma_u32_cast_roundtrip(n as u32);
                lemma_le_to_nat_canonical(s);
                assert(encode_plain(PlainModel::I32((n as u32) as i32)) == nat_to_le(n, 4));
            }
        },
        BaseTag::I64 => {
            if s.len() == 8 {
                let n = le_to_nat(s);
                lemma_le_to_nat_bound(s);
                lemma_u64_cast_roundtrip(n as u64);
                lemma_le_to_nat_canonical(s);
                assert(encode_plain(PlainModel::I64((n as u64) as i64)) == nat_to_le(n, 8));
            }
        },
        BaseTag::U8 => {
            if s.len() == 1 {
                assert(encode_plain(PlainModel::U8(s[0])) =~= s);
            }
        },
        BaseTag::U32 => {
            if s.len() == 4 {
                lemma_le_to_nat_bound(s);
                lemma_le_to_nat_canonical(s);
            }
        },
        BaseTag::U64 => {
            if s.len() == 8 {
                lemma_le_to_nat_bound(s);
                lemma_le_to_nat_canonical(s);
            }
        },
        BaseTag::U128 => {
            lemma_big_encode_canonical(s, 16);
        },
        BaseTag::U256 => {
            lemma_big_encode_canonical(s, 32);
        },
        BaseTag::U512 => {
            lemma_big_encode_canonical(s, 64);
        },
        BaseTag::Unit => {
            if s.len() == 0 {
                assert(encode_plain(PlainModel::Unit) =~= s);
            }
        },
        BaseTag::Str => {
            if s.len() >= 4 && le_to_nat(s.take(4)) == (s.len() - 4) as nat {
                lemma_le_to_nat_canonical(s.take(4));
                assert(nat_to_le((s.len() - 4) as nat, 4) == s.take(4));
                assert(encode_plain(PlainModel::Str(s.skip(4))) =~= s.take(4) + s.skip(4));
                assert(s.take(4) + s.skip(4) =~= s);
            }
        },
        BaseTag::Key => {
            if s.len() == 33 && (s[0] == 0 || s[0] == 1) {
                assert(seq![s[0]] + s.skip(1) =~= s);
            } else if s.len() == 34 && s[0] == 2 && s[33] <= 7 {
                assert(seq![2u8] + s.subrange(1, 33) + seq![s[33]] =~= s);
            }
        },
        BaseTag::AccountHash => {},
        BaseTag::URef => {
            if s.len() == 33 && s[32] <= 7 {
                assert(s.take(32) + seq![s[32]] =~= s);
            }
        },
        BaseTag::PublicKey => {
            if s.len() == 33 && s[0] == 1 {
                assert(seq![1u8] + s.skip(1) =~= s);
            } else if s.len() == 34 && s[0] == 2 {
                assert(seq![2u8] + s.skip(1) =~= s);
            }
        },
    }
}

/// Canonicity of the length-prefixed wide unsigned encoding.
proof fn lemma_big_encode_canonical(s: Seq<u8>, w: nat)
    ensures
        big_decode(s, w) matches Some(n) ==> seq![min_len(n) as u8] + min_repr(n) == s,
{
    match big_decode(s, w) {
        Some(n) => {
            let body = s.skip(1);
            lemma_last_nonzero_min(body);
            assert(min_len(n) == body.len());
            lemma_le_to_nat_canonical(body);
            assert(min_repr(n) == body);
            assert(seq![min_len(n) as u8] + min_repr(n) =~= s);
        },
        None => {},
    }
}

/// Encoding is canonical for full values as well.
pub proof fn lemma_encode_decode_value(t: TypeTag, s: Seq<u8>)
    ensures
        decode_value(t, s) matches Some(m) ==> encode_value(m) == s,
{
    if !t.optional {
        lemma_encode_decode_plain(t.base, s);
    } else {
        if s == seq![0u8] {
        } else if s.len() >= 1 && s[0] == 1 {
            lemma_encode_decode_plain(t.base, s.skip(1));
            match decode_plain(t.base, s.skip(1)) {
                Some(p) => {
                    assert(seq![1u8] + encode_plain(p) =~= s);
                },
                None => {},
            }
        }
    }
}

/// Decodes the payload of a plain value of base type `t`, consuming all
/// of `s`.
pub fn decode_plain_bytes(t: BaseTag, s: &[u8]) -> (r: Option<PlainValue>)
    ensures
        r is Some <==> decode_plain(t, s@) is Some,
        r matches Some(v) ==> decode_plain(t, s@) == Some(v@) && plain_value_wf(v),
{
    proof {
        lemma_pow256_small();
    }
    match t {
        BaseTag::Bool => {
            if s.len() == 1 && s[0] == 1 {
                proof {
                    assert(s@ =~= seq![1u8]);
                }
                Some(PlainValue::Bool(true))
            } else if s.len() == 1 && s[0] == 0 {
                proof {
                    assert(s@ =~= seq![0u8]);
                }
                Some(PlainValue::Bool(false))
            } else {
                proof {
                    if s@.len() == 1 {
                        assert(s@ != seq![1u8] && s@ != seq![0u8]) by {
                            assert(s@[0] != 1u8 && s@[0] != 0u8);
                        }
                    } else {
                        assert(s@ != seq![1u8] && s@ != seq![0u8]) by {
                            assert(s@.len() != 1);
                        }
                    }
                }
                None
            }
        },
        BaseTag::I32 => {
            if s.len() == 4 {
                let n = read_le_u64(s);
                proof {
                    lemma_le_to_nat_bound(s@);
                    assert(n < 0x100000000);
                }
                Some(PlainValue::I32(#[verifier::truncate] ((n as u32) as i32)))
            } else {
                None
            }
        },
        BaseTag::I64 => {
            if s.len() == 8 {
                let n = read_le_u64(s);
                Some(PlainValue::I64(#[verifier::truncate] (n as i64)))
            } else {
                None
            }
        },
        BaseTag::U8 => {
            if s.len() == 1 {
                Some(PlainValue::U8(s[0]))
            } else {
                None
            }
        },
        BaseTag::U32 => {
            if s.len() == 4 {
                let n = read_le_u64(s);
                proof {
                    lemma_le_to_nat_bound(s@);
                    assert(n < 0x100000000);
                }
                Some(PlainValue::U32(n as u32))
            } else {
                None
            }
        },
        BaseTag::U64 => {
            if s.len() == 8 {
                let n = read_le_u64(s);
                Some(PlainValue::U64(n))
            } else {
                None
            }
        },
        BaseTag::U128 => {
            match decode_big_bytes(s, 16) {
                Some(b) => Some(PlainValue::U128(b)),
                None => None,
            }
        },
        BaseTag::U256 => {
            match decode_big_bytes(s, 32) {
                Some(b) => Some(PlainValue::U256(b)),
                None => None,
            }
        },
        BaseTag::U512 => {
            match decode_big_bytes(s, 64) {
                Some(b) => Some(PlainValue::U512(b)),
                None => None,
            }
        },
        BaseTag::Unit => {
            if s.len() == 0 {
                Some(PlainValue::Unit)
            } else {
                None
            }
        },
        BaseTag::Str => {
            if s.len() >= 4 {
                let head = copy_range(s, 0, 4);
                proof {
                    assert(head@ =~= s@.take(4));
                }
                let ln = read_le_u64(head.as_slice());
                proof {
                    lemma_le_to_nat_bound(s@.take(4));
                }
                if ln == (s.len() - 4) as u64 {
                    let body = copy_range(s, 4, s.len());
                    proof {
                        assert(body@ =~= s@.skip(4));
                    }
                    Some(PlainValue::Str(body))
                } else {
                    None
                }
            } else {
                None
            }
        },
        BaseTag::Key => {
            if s.len() == 33 && s[0] == 0 {
                let body = copy_range(s, 1, 33);
                proof {
                    assert(body@ =~= s@.skip(1));
                }
                Some(PlainValue::Key(KeyValue::Account(body)))
            } else if s.len() == 33 && s[0] == 1 {
                let body = copy_range(s, 1, 33);
                proof {
                    assert(body@ =~= s@.skip(1));
                }
                Some(PlainValue::Key(KeyValue::Hash(body)))
            } else if s.len() == 34 && s[0] == 2 && s[33] <= 7 {
                let body = copy_range(s, 1, 33);
                Some(PlainValue::Key(KeyValue::URef(body, s[33])))
            } else {
                None
            }
        },
        BaseTag::AccountHash => {
            if s.len() == 32 {
                let body = copy_range(s, 0, 32);
                proof {
                    assert(body@ =~= s@);
                }
                Some(PlainValue::AccountHash(body))
            } else {
                None
            }
        },
        BaseTag::URef => {
            if s.len() == 33 && s[32] <= 7 {
                let body = copy_range(s, 0, 32);
                proof {
                    assert(body@ =~= s@.take(32));
                }
                Some(PlainValue::URef(body, s[32]))
            } else {
                None
            }
        },
        BaseTag::PublicKey => {
            if s.len() == 33 && s[0] == 1 {
                let body = copy_range(s, 1, 33);
                proof {
                    assert(body@ =~= s@.skip(1));
                }
                Some(PlainValue::PublicKey(PublicKeyValue::Ed25519(body)))
            } else if s.len() == 34 && s[0] == 2 {
                let body = copy_range(s, 1, 34);
                proof {
                    assert(body@ =~= s@.skip(1));
                }
                Some(PlainValue::PublicKey(PublicKeyValue::Secp256k1(body)))
            } else {
                None
            }
        },
    }
}

/// Decodes a length-prefixed minimal little-endian number of at most
/// `width` bytes, returning the bare minimal bytes.
fn decode_big_bytes(s: &[u8], width: usize) -> (r: Option<Vec<u8>>)
    requires
        1 <= width <= 255,
    ensures
        r is Some <==> big_decode(s@, width as nat) is Some,
        r matches Some(v) ==> big_decode(s@, width as nat) == Some(le_to_nat(v@)) && big_wf(
            v@,
            width as nat,
        ),
{
    if s.len() == 0 {
        return None;
    }
    if s[0] as usize != s.len() - 1 {
        return None;
    }
    if s.len() - 1 > width {
        return None;
    }
    if s.len() > 1 && s[s.len() - 1] == 0 {
        return None;
    }
    let body = copy_range(s, 1, s.len());
    proof {
        assert(body@ =~= s@.skip(1));
    }
    Some(body)
}

/// Decodes a full value of type `t`, consuming all of `s`.
pub fn decode_value_bytes(t: TypeTag, s: &[u8]) -> (r: Option<Value>)
    ensures
        r is Some <==> decode_value(t, s@) is Some,
        r matches Some(v) ==> decode_value(t, s@) == Some(v@) && value_wf(v),
{
    if !t.optional {
        match decode_plain_bytes(t.base, s) {
            Some(p) => Some(Value::Plain(p)),
            None => None,
        }
    } else {
        if s.len() == 1 && s[0] == 0 {
            proof {
                assert(s@ =~= seq![0u8]);
            }
            Some(Value::OptNone(t.base))
        } else if s.len() >= 1 && s[0] == 1 {
            proof {
                assert(s@ != seq![0u8]);
            }
            let body = copy_range(s, 1, s.len());
            proof {
                assert(body@ =~= s@.skip(1));
            }
            match decode_plain_bytes(t.base, body.as_slice()) {
                Some(p) => Some(Value::OptSome(p)),
                None => None,
            }
        } else {
            proof {
                if s@.len() == 1 {
                    assert(s@ != seq![0u8]) by {
                        assert(s@[0] != 0u8);
                    }
                } else {
                    assert(s@ != seq![0u8]) by {
                        assert(s@.len() != 1);
                    }
                }
            }
            None
        }
    }
}

} // verus!
