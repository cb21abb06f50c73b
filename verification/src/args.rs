//! The type registry and value encoder.
//!
//! Turns one tokenized argument into a typed, binary-encoded named
//! argument.  The type tag is matched case-sensitively against the
//! closed registry; the value text is decoded by the rule of its base
//! type; the decoded value is then canonically encoded.
//!
//! Formatted-string grammars, as the collaborating type library writes
//! them:
//! - account hash: `account-hash-` followed by 64 hex characters;
//! - key: an account hash as above, or `hash-` plus 64 hex characters,
//!   or a uref as below;
//! - uref: `uref-`, 64 hex characters, `-`, and a three-digit
//!   access-rights suffix `000`..`007`;
//! - public key: `01` plus 64 hex characters (ed25519) or `02` plus 66
//!   hex characters (secp256k1).
use vstd::prelude::*;

use crate::bytes_le::{min_repr, pow256};
use crate::bytesutil::{bytes_eq, copy_range, starts_with, to_vec};
use crate::decimal::{
    all_digits,
    dec_value,
    parse_big_digits,
    parse_i32_value,
    parse_i64_value,
    parse_u32_value,
    parse_u64_value,
    parse_u8_value,
    signed_ok,
    signed_value,
    unsigned_body,
    unsigned_ok,
};
use crate::errors::{CliError, CliErrorModel};
use crate::hex::{all_hex, hex_decode, hex_decode_bytes};
use crate::tags::{tag_from_bytes, tag_of_name, BaseTag, TypeTag};
use crate::tokenize::{null_lit, tokenize, tokenize_spec, RawValue, RawValueModel};
use crate::values::{
    base_tag_of_plain,
    decode_value,
    encode_exec_value,
    encode_value,
    lemma_decode_encode_value,
    plain_model_wf,
    plain_value_wf,
    tag_of_value,
    value_model_wf,
    value_wf,
    KeyModel,
    KeyValue,
    PlainModel,
    PlainValue,
    PublicKeyModel,
    PublicKeyValue,
    Value,
    ValueModel,
};

verus! {

/// The spelling of `true`.
pub open spec fn true_lit() -> Seq<u8> {
    seq!['t' as u8, 'r' as u8, 'u' as u8, 'e' as u8]
}

/// The spelling of `false`.
pub open spec fn false_lit() -> Seq<u8> {
    seq!['f' as u8, 'a' as u8, 'l' as u8, 's' as u8, 'e' as u8]
}

/// The `account-hash-` prefix of account-hash formatted strings.
pub open spec fn account_hash_prefix() -> Seq<u8> {
    seq![
        'a' as u8,
        'c' as u8,
        'c' as u8,
        'o' as u8,
        'u' as u8,
        'n' as u8,
        't' as u8,
        '-' as u8,
        'h' as u8,
        'a' as u8,
        's' as u8,
        'h' as u8,
        '-' as u8,
    ]
}

/// The `hash-` prefix of hash-key formatted strings.
pub open spec fn hash_prefix() -> Seq<u8> {
    seq!['h' as u8, 'a' as u8, 's' as u8, 'h' as u8, '-' as u8]
}

/// The `uref-` prefix of uref formatted strings.
pub open spec fn uref_prefix() -> Seq<u8> {
    seq!['u' as u8, 'r' as u8, 'e' as u8, 'f' as u8, '-' as u8]
}

/// The 32 bytes of an account-hash formatted string, if `v` is one.
pub open spec fn parse_account_hash_body(v: Seq<u8>) -> Option<Seq<u8>> {
    if v.len() == 77 && v.take(13) == account_hash_prefix() && all_hex(v.skip(13)) {
        Some(hex_decode(v.skip(13)))
    } else {
        None
    }
}

/// The 32 bytes of a hash-key formatted string, if `v` is one.
pub open spec fn parse_hash_body(v: Seq<u8>) -> Option<Seq<u8>> {
    if v.len() == 69 && v.take(5) == hash_prefix() && all_hex(v.skip(5)) {
        Some(hex_decode(v.skip(5)))
    } else {
        None
    }
}

/// The address and access rights of a uref formatted string, if `v` is
/// one.  The three-digit suffix allows the rights values `0` through
/// `7`, written `000`..`007`.
pub open spec fn parse_uref_parts(v: Seq<u8>) -> Option<(Seq<u8>, u8)> {
    if v.len() == 73 && v.take(5) == uref_prefix() && all_hex(v.subrange(5, 69)) && v[69] == (
    '-' as u8) && v[70] == ('0' as u8) && v[71] == ('0' as u8) && ('0' as u8) <= v[72] <= (
    '7' as u8) {
        Some((hex_decode(v.subrange(5, 69)), (v[72] - ('0' as u8)) as u8))
    } else {
        None
    }
}

/// The key a formatted string denotes: one of the three sub-encodings.
pub open spec fn parse_key_model(v: Seq<u8>) -> Option<KeyModel> {
    match parse_account_hash_body(v) {
        Some(h) => Some(KeyModel::Account(h)),
        None => match parse_hash_body(v) {
            Some(h) => Some(KeyModel::Hash(h)),
            None => match parse_uref_parts(v) {
                Some((a, r)) => Some(KeyModel::URef(a, r)),
                None => None,
            },
        },
    }
}

/// The public key a hex string denotes: a two-digit algorithm prefix,
/// then the compressed key bytes.
pub open spec fn parse_public_key_model(v: Seq<u8>) -> Option<PublicKeyModel> {
    if v.len() == 66 && v[0] == ('0' as u8) && v[1] == ('1' as u8) && all_hex(v.skip(2)) {
        Some(PublicKeyModel::Ed25519(hex_decode(v.skip(2))))
    } else if v.len() == 68 && v[0] == ('0' as u8) && v[1] == ('2' as u8) && all_hex(v.skip(2)) {
        Some(PublicKeyModel::Secp256k1(hex_decode(v.skip(2))))
    } else {
        None
    }
}

/// The decode rule of each base type over the quoted value text: which
/// values are accepted, what they denote, and which error kind each
/// rejection carries.
pub open spec fn parse_plain_spec(t: BaseTag, v: Seq<u8>) -> Result<PlainModel, CliErrorModel> {
    match t {
        BaseTag::Bool => if v == true_lit() {
            Ok(PlainModel::Bool(true))
        } else if v == false_lit() {
            Ok(PlainModel::Bool(false))
        } else {
            Err(CliErrorModel::InvalidNumber { tag: BaseTag::Bool, value: v })
        },
        BaseTag::I32 => if signed_ok(v, i32::MIN as int, i32::MAX as int) {
            Ok(PlainModel::I32(signed_value(v) as i32))
        } else {
            Err(CliErrorModel::InvalidNumber { tag: BaseTag::I32, value: v })
        },
        BaseTag::I64 => if signed_ok(v, i64::MIN as int, i64::MAX as int) {
            Ok(PlainModel::I64(signed_value(v) as i64))
        } else {
            Err(CliErrorModel::InvalidNumber { tag: BaseTag::I64, value: v })
        },
        BaseTag::U8 => if unsigned_ok(v, u8::MAX as nat) {
            Ok(PlainModel::U8(dec_value(unsigned_body(v)) as u8))
        } else {
            Err(CliErrorModel::InvalidNumber { tag: BaseTag::U8, value: v })
        },
        BaseTag::U32 => if unsigned_ok(v, u32::MAX as nat) {
            Ok(PlainModel::U32(dec_value(unsigned_body(v)) as u32))
        } else {
            Err(CliErrorModel::InvalidNumber { tag: BaseTag::U32, value: v })
        },
        BaseTag::U64 => if unsigned_ok(v, u64::MAX as nat) {
            Ok(PlainModel::U64(dec_value(unsigned_body(v)) as u64))
        } else {
            Err(CliErrorModel::InvalidNumber { tag: BaseTag::U64, value: v })
        },
        BaseTag::U128 => if v.len() > 0 && all_digits(v) && dec_value(v) < pow256(16) {
            Ok(PlainModel::U128(dec_value(v)))
        } else {
            Err(CliErrorModel::InvalidNumber { tag: BaseTag::U128, value: v })
        },
        BaseTag::U256 => if v.len() > 0 && all_digits(v) && dec_value(v) < pow256(32) {
            Ok(PlainModel::U256(dec_value(v)))
        } else {
            Err(CliErrorModel::InvalidNumber { tag: BaseTag::U256, value: v })
        },
        BaseTag::U512 => if v.len() > 0 && all_digits(v) && dec_value(v) < pow256(64) {
            Ok(PlainModel::U512(dec_value(v)))
        } else {
            Err(CliErrorModel::InvalidNumber { tag: BaseTag::U512, value: v })
        },
        BaseTag::Unit => if v.len() == 0 {
            Ok(PlainModel::Unit)
        } else {
            Err(CliErrorModel::InvalidFormattedString { tag: BaseTag::Unit, value: v })
        },
        BaseTag::Str => if v.len() <= u32::MAX {
            Ok(PlainModel::Str(v))
        } else {
            Err(CliErrorModel::CoreSerialization { tag: BaseTag::Str })
        },
        BaseTag::Key => match parse_key_model(v) {
            Some(k) => Ok(PlainModel::Key(k)),
            None => Err(CliErrorModel::InvalidFormattedString { tag: BaseTag::Key, value: v }),
        },
        BaseTag::AccountHash => match parse_account_hash_body(v) {
            Some(h) => Ok(PlainModel::AccountHash(h)),
            None => Err(
                CliErrorModel::InvalidFormattedString { tag: BaseTag::AccountHash, value: v },
            ),
        },
        BaseTag::URef => match parse_uref_parts(v) {
            Some((a, r)) => Ok(PlainModel::URef(a, r)),
            None => Err(CliErrorModel::InvalidFormattedString { tag: BaseTag::URef, value: v }),
        },
        BaseTag::PublicKey => match parse_public_key_model(v) {
            Some(p) => Ok(PlainModel::PublicKey(p)),
            None => Err(
                CliErrorModel::InvalidFormattedString { tag: BaseTag::PublicKey, value: v },
            ),
        },
    }
}

/// The decode rule of a full type over a raw value: `null` is accepted
/// exactly for optional types; any other value follows the base type's
/// rule, wrapped where the type is optional.
pub open spec fn parse_value_spec(t: TypeTag, rv: RawValueModel) -> Result<
    ValueModel,
    CliErrorModel,
> {
    match rv {
        RawValueModel::Null => if t.optional {
            Ok(ValueModel::OptNone(t.base))
        } else {
            Err(CliErrorModel::InvalidFormattedString { tag: t.base, value: null_lit() })
        },
        RawValueModel::Quoted(v) => match parse_plain_spec(t.base, v) {
            Ok(p) => Ok(
                if t.optional {
                    ValueModel::OptSome(p)
                } else {
                    ValueModel::Plain(p)
                },
            ),
            Err(e) => Err(e),
        },
    }
}

/// A successfully decoded value is well formed and belongs to the tag it
/// was decoded under.
pub proof fn lemma_parse_plain_wf(t: BaseTag, v: Seq<u8>)
    ensures
        parse_plain_spec(t, v) matches Ok(p) ==> plain_model_wf(p) && base_tag_of_plain(p) == t,
{
}

/// A minimal representation of a value below `256^w` is well formed for
/// width `w`.
proof fn lemma_min_repr_wf(n: nat, w: nat)
    requires
        n < pow256(w),
    ensures
        crate::values::big_wf(min_repr(n), w),
        crate::bytes_le::le_to_nat(min_repr(n)) == n,
{
    crate::bytes_le::lemma_min_len_le(n, w);
    crate::bytes_le::lemma_nat_to_le_len(n, crate::bytes_le::min_len(n));
    if n > 0 {
        crate::bytes_le::lemma_min_repr_last_nonzero(n);
    }
    crate::bytes_le::lemma_min_len_le(n, crate::bytes_le::min_len(n));
    crate::bytes_le::lemma_nat_to_le_roundtrip(n, crate::bytes_le::min_len(n));
}

/// Decodes the quoted value text of one plain value of base type `t`.
pub fn parse_plain_value(t: BaseTag, v: &[u8]) -> (r: Result<PlainValue, CliError>)
    ensures
        r matches Ok(p) ==> parse_plain_spec(t, v@) == Ok::<PlainModel, CliErrorModel>(p@)
            && plain_value_wf(p),
        r matches Err(e) ==> parse_plain_spec(t, v@) == Err::<PlainModel, CliErrorModel>(e@),
{
    match t {
        BaseTag::Bool => {
            let tl: Vec<u8> = vec!['t' as u8, 'r' as u8, 'u' as u8, 'e' as u8];
            let fl: Vec<u8> = vec!['f' as u8, 'a' as u8, 'l' as u8, 's' as u8, 'e' as u8];
            proof {
                assert(tl@ =~= true_lit());
                assert(fl@ =~= false_lit());
            }
            if bytes_eq(v, tl.as_slice()) {
                Ok(PlainValue::Bool(true))
            } else if bytes_eq(v, fl.as_slice()) {
                Ok(PlainValue::Bool(false))
            } else {
                Err(CliError::InvalidNumber { tag: BaseTag::Bool, value: to_vec(v) })
            }
        },
        BaseTag::I32 => {
            match parse_i32_value(v) {
                Some(n) => Ok(PlainValue::I32(n)),
                None => Err(CliError::InvalidNumber { tag: BaseTag::I32, value: to_vec(v) }),
            }
        },
        BaseTag::I64 => {
            match parse_i64_value(v) {
                Some(n) => Ok(PlainValue::I64(n)),
                None => Err(CliError::InvalidNumber { tag: BaseTag::I64, value: to_vec(v) }),
            }
        },
        BaseTag::U8 => {
            match parse_u8_value(v) {
                Some(n) => Ok(PlainValue::U8(n)),
                None => Err(CliError::InvalidNumber { tag: BaseTag::U8, value: to_vec(v) }),
            }
        },
        BaseTag::U32 => {
            match parse_u32_value(v) {
                Some(n) => Ok(PlainValue::U32(n)),
                None => Err(CliError::InvalidNumber { tag: BaseTag::U32, value: to_vec(v) }),
            }
        },
        BaseTag::U64 => {
            match parse_u64_value(v) {
                Some(n) => Ok(PlainValue::U64(n)),
                None => Err(CliError::InvalidNumber { tag: BaseTag::U64, value: to_vec(v) }),
            }
        },
        BaseTag::U128 => {
            match parse_big_digits(v, 16) {
                Some(b) => {
                    proof {
                        lemma_min_repr_wf(dec_value(v@), 16);
                    }
                    Ok(PlainValue::U128(b))
                },
                None => Err(CliError::InvalidNumber { tag: BaseTag::U128, value: to_vec(v) }),
            }
        },
        BaseTag::U256 => {
            match parse_big_digits(v, 32) {
                Some(b) => {
                    proof {
                        lemma_min_repr_wf(dec_value(v@), 32);
                    }
                    Ok(PlainValue::U256(b))
                },
                None => Err(CliError::InvalidNumber { tag: BaseTag::U256, value: to_vec(v) }),
            }
        },
        BaseTag::U512 => {
            match parse_big_digits(v, 64) {
                Some(b) => {
                    proof {
                        lemma_min_repr_wf(dec_value(v@), 64);
                    }
                    Ok(PlainValue::U512(b))
                },
                None => Err(CliError::InvalidNumber { tag: BaseTag::U512, value: to_vec(v) }),
            }
        },
        BaseTag::Unit => {
            if v.len() == 0 {
                Ok(PlainValue::Unit)
            } else {
                Err(CliError::InvalidFormattedString { tag: BaseTag::Unit, value: to_vec(v) })
            }
        },
        BaseTag::Str => {
            if v.len() as u64 <= u32::MAX as u64 {
                Ok(PlainValue::Str(to_vec(v)))
            } else {
                Err(CliError::CoreSerialization { tag: BaseTag::Str })
            }
        },
        BaseTag::Key => {
            match parse_account_hash_exec(v) {
                Some(h) => Ok(PlainValue::Key(KeyValue::Account(h))),
                None => match parse_hash_exec(v) {
                    Some(h) => Ok(PlainValue::Key(KeyValue::Hash(h))),
                    None => match parse_uref_exec(v) {
                        Some((a, r)) => Ok(PlainValue::Key(KeyValue::URef(a, r))),
                        None => Err(
                            CliError::InvalidFormattedString { tag: BaseTag::Key, value: to_vec(v) },
                        ),
                    },
                },
            }
        },
        BaseTag::AccountHash => {
            match parse_account_hash_exec(v) {
                Some(h) => Ok(PlainValue::AccountHash(h)),
                None => Err(
                    CliError::InvalidFormattedString {
                        tag: BaseTag::AccountHash,
                        value: to_vec(v),
                    },
                ),
            }
        },
        BaseTag::URef => {
            match parse_uref_exec(v) {
                Some((a, r)) => Ok(PlainValue::URef(a, r)),
                None => Err(
                    CliError::InvalidFormattedString { tag: BaseTag::URef, value: to_vec(v) },
                ),
            }
        },
        BaseTag::PublicKey => {
            match parse_public_key_exec(v) {
                Some(p) => Ok(PlainValue::PublicKey(p)),
                None => Err(
                    CliError::InvalidFormattedString { tag: BaseTag::PublicKey, value: to_vec(v) },
                ),
            }
        },
    }
}

/// Parses an `account-hash-`-prefixed formatted string into its 32
/// bytes.
fn parse_account_hash_exec(v: &[u8]) -> (r: Option<Vec<u8>>)
    ensures
        r is Some <==> parse_account_hash_body(v@) is Some,
        r matches Some(h) ==> parse_account_hash_body(v@) == Some(h@) && h@.len() == 32,
{
    let prefix: Vec<u8> = vec![
        'a' as u8,
        'c' as u8,
        'c' as u8,
        'o' as u8,
        'u' as u8,
        'n' as u8,
        't' as u8,
        '-' as u8,
        'h' as u8,
        'a' as u8,
        's' as u8,
        'h' as u8,
        '-' as u8,
    ];
    proof {
        assert(prefix@ =~= account_hash_prefix());
    }
    if v.len() == 77 && starts_with(v, prefix.as_slice()) {
        let body = copy_range(v, 13, 77);
        proof {
            assert(body@ =~= v@.skip(13));
        }
        hex_decode_bytes(body.as_slice())
    } else {
        None
    }
}

/// Parses a `hash-`-prefixed formatted string into its 32 bytes.
fn parse_hash_exec(v: &[u8]) -> (r: Option<Vec<u8>>)
    ensures
        r is Some <==> parse_hash_body(v@) is Some,
        r matches Some(h) ==> parse_hash_body(v@) == Some(h@) && h@.len() == 32,
{
    let prefix: Vec<u8> = vec!['h' as u8, 'a' as u8, 's' as u8, 'h' as u8, '-' as u8];
    proof {
        assert(prefix@ =~= hash_prefix());
    }
    if v.len() == 69 && starts_with(v, prefix.as_slice()) {
        let body = copy_range(v, 5, 69);
        proof {
            assert(body@ =~= v@.skip(5));
        }
        hex_decode_bytes(body.as_slice())
    } else {
        None
    }
}

/// Parses a `uref-`-prefixed formatted string into its 32-byte address
/// and access-rights byte.
fn parse_uref_exec(v: &[u8]) -> (r: Option<(Vec<u8>, u8)>)
    ensures
        r is Some <==> parse_uref_parts(v@) is Some,
        r matches Some(p) ==> parse_uref_parts(v@) == Some((p.0@, p.1)) && p.0@.len() == 32 && p.1
            <= 7,
{
    let prefix: Vec<u8> = vec!['u' as u8, 'r' as u8, 'e' as u8, 'f' as u8, '-' as u8];
    proof {
        assert(prefix@ =~= uref_prefix());
    }
    if v.len() == 73 && starts_with(v, prefix.as_slice()) && v[69] == '-' as u8 && v[70]
        == '0' as u8 && v[71] == '0' as u8 && '0' as u8 <= v[72] && v[72] <= '7' as u8 {
        let body = copy_range(v, 5, 69);
        proof {
            assert(body@ =~= v@.subrange(5, 69));
        }
        match hex_decode_bytes(body.as_slice()) {
            Some(addr) => Some((addr, v[72] - '0' as u8)),
            None => None,
        }
    } else {
        None
    }
}

/// Parses a hex public-key string: algorithm prefix, then the key bytes.
fn parse_public_key_exec(v: &[u8]) -> (r: Option<PublicKeyValue>)
    ensures
        r is Some <==> parse_public_key_model(v@) is Some,
        r matches Some(p) ==> parse_public_key_model(v@) == Some(p@)
            && crate::values::plain_value_wf(PlainValue::PublicKey(p)),
{
    if v.len() == 66 && v[0] == '0' as u8 && v[1] == '1' as u8 {
        let body = copy_range(v, 2, 66);
        proof {
            assert(body@ =~= v@.skip(2));
        }
        match hex_decode_bytes(body.as_slice()) {
            Some(k) => Some(PublicKeyValue::Ed25519(k)),
            None => None,
        }
    } else if v.len() == 68 && v[0] == '0' as u8 && v[1] == '2' as u8 {
        let body = copy_range(v, 2, 68);
        proof {
            assert(body@ =~= v@.skip(2));
        }
        match hex_decode_bytes(body.as_slice()) {
            Some(k) => Some(PublicKeyValue::Secp256k1(k)),
            None => None,
        }
    } else {
        None
    }
}

/// Decodes one raw value of type `t`.
pub fn parse_value(t: TypeTag, rv: &RawValue) -> (r: Result<Value, CliError>)
    ensures
        r matches Ok(m) ==> parse_value_spec(t, rv@) == Ok::<ValueModel, CliErrorModel>(m@)
            && value_wf(m),
        r matches Err(e) ==> parse_value_spec(t, rv@) == Err::<ValueModel, CliErrorModel>(e@),
{
    match rv {
        RawValue::Null => {
            if t.optional {
                Ok(Value::OptNone(t.base))
            } else {
                let null_text: Vec<u8> = vec!['n' as u8, 'u' as u8, 'l' as u8, 'l' as u8];
                proof {
                    assert(null_text@ =~= null_lit());
                }
                Err(CliError::InvalidFormattedString { tag: t.base, value: null_text })
            }
        },
        RawValue::Quoted(v) => {
            match parse_plain_value(t.base, v.as_slice()) {
                Ok(p) => if t.optional {
                    Ok(Value::OptSome(p))
                } else {
                    Ok(Value::Plain(p))
                },
                Err(e) => Err(e),
            }
        },
    }
}

/// The canonical binary form of one value: its bytes, with the tag they
/// were encoded under.
#[derive(Clone, Debug, PartialEq, Eq)]
pub struct EncodedValue {
    pub tag: TypeTag,
    pub bytes: Vec<u8>,
}

/// One named, typed, binary-encoded argument.
#[derive(Clone, Debug, PartialEq, Eq)]
pub struct TypedArg {
    pub name: Vec<u8>,
    pub value: EncodedValue,
}

/// Mathematical model of a [`TypedArg`].
pub struct TypedArgModel {
    pub name: Seq<u8>,
    pub tag: TypeTag,
    pub bytes: Seq<u8>,
}

impl View for TypedArg {
    type V = TypedArgModel;

    open spec fn view(&self) -> TypedArgModel {
        TypedArgModel { name: self.name@, tag: self.value.tag, bytes: self.value.bytes@ }
    }
}

/// The invariant of a typed argument: a non-empty name, and bytes that
/// decode under their own tag.
pub open spec fn typed_arg_wf(m: TypedArgModel) -> bool {
    m.name.len() > 0 && decode_value(m.tag, m.bytes) is Some
}

/// What encoding one tokenized triple yields: the tag resolved against
/// the registry, the value decoded by that tag's rule, and the decoded
/// value canonically encoded under the argument's name.
pub open spec fn encode_arg_spec(name: Seq<u8>, tag_text: Seq<u8>, rv: RawValueModel) -> Result<
    TypedArgModel,
    CliErrorModel,
> {
    match tag_of_name(tag_text) {
        None => Err(CliErrorModel::UnknownType { tag: tag_text }),
        Some(t) => match parse_value_spec(t, rv) {
            Ok(m) => Ok(TypedArgModel { name: name, tag: t, bytes: encode_value(m) }),
            Err(e) => Err(e),
        },
    }
}

/// What parsing one raw argument yields: tokenization, tag resolution,
/// value decoding, and canonical encoding.
pub open spec fn parse_arg_spec(raw: Seq<u8>) -> Result<TypedArgModel, CliErrorModel> {
    match tokenize_spec(raw) {
        None => Err(CliErrorModel::MalformedArgument { arg: raw }),
        Some(tok) => encode_arg_spec(tok.name, tok.tag, tok.value),
    }
}

/// Builds one typed argument from a tokenized triple.  The name must be
/// non-empty, as the tokenizer guarantees.
pub fn encode_arg(name: &[u8], tag_text: &[u8], rv: &RawValue) -> (r: Result<TypedArg, CliError>)
    requires
        name@.len() > 0,
    ensures
        r matches Ok(a) ==> encode_arg_spec(name@, tag_text@, rv@) == Ok::<
            TypedArgModel,
            CliErrorModel,
        >(a@) && typed_arg_wf(a@),
        r matches Err(e) ==> encode_arg_spec(name@, tag_text@, rv@) == Err::<
            TypedArgModel,
            CliErrorModel,
        >(e@),
{
    let t = match tag_from_bytes(tag_text) {
        Some(t) => t,
        None => {
            return Err(CliError::UnknownType { tag: to_vec(tag_text) });
        },
    };
    let value = match parse_value(t, rv) {
        Ok(v) => v,
        Err(e) => {
            return Err(e);
        },
    };
    let bytes = encode_exec_value(&value);
    proof {
        // The parsed value is well formed, so decoding its canonical
        // encoding under its own tag succeeds: the argument's invariant.
        match rv@ {
            RawValueModel::Null => {},
            RawValueModel::Quoted(v) => {
                lemma_parse_plain_wf(t.base, v);
            },
        }
        lemma_decode_encode_value(value@);
        assert(tag_of_value(value@) == t);
    }
    Ok(TypedArg { name: to_vec(name), value: EncodedValue { tag: t, bytes } })
}

/// Parses one raw `NAME:TYPE='VALUE'` (or `NAME:TYPE=null`) argument
/// into a typed argument.
pub fn parse_arg(raw: &[u8]) -> (r: Result<TypedArg, CliError>)
    ensures
        r matches Ok(a) ==> parse_arg_spec(raw@) == Ok::<TypedArgModel, CliErrorModel>(a@)
            && typed_arg_wf(a@),
        r matches Err(e) ==> parse_arg_spec(raw@) == Err::<TypedArgModel, CliErrorModel>(e@),
{
    let tok = match tokenize(raw) {
        Ok(t) => t,
        Err(e) => {
            return Err(e);
        },
    };
    encode_arg(tok.name.as_slice(), tok.tag.as_slice(), &tok.value)
}

} // verus!
