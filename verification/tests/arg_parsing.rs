//! Argument tokenizing and encoding, end to end through `parse_arg`.
use casper_deploy_core::args::{parse_arg, EncodedValue, TypedArg};
use casper_deploy_core::errors::CliError;
use casper_deploy_core::tags::{BaseTag, TypeTag};
use casper_deploy_core::values::{decode_value_bytes, encode_exec_value, PlainValue, Value};

fn b(s: &str) -> Vec<u8> {
    s.as_bytes().to_vec()
}

fn parse(s: &str) -> Result<TypedArg, CliError> {
    parse_arg(s.as_bytes())
}

fn tag(optional: bool, base: BaseTag) -> TypeTag {
    TypeTag { optional, base }
}

#[test]
fn u64_simple_arg() {
    let arg = parse("amount:u64='1000000'").unwrap();
    assert_eq!(arg.name, b("amount"));
    assert_eq!(arg.value.tag, tag(false, BaseTag::U64));
    assert_eq!(arg.value.bytes, vec![0x40, 0x42, 0x0F, 0, 0, 0, 0, 0]);
}

#[test]
fn bool_rejects_non_boolean_text() {
    let err = parse("flag:bool='maybe'").unwrap_err();
    assert!(matches!(
        err,
        CliError::InvalidNumber { tag: BaseTag::Bool, .. }
    ));
}

#[test]
fn bool_accepts_exactly_true_and_false() {
    let t = parse("x:bool='true'").unwrap();
    assert_eq!(t.value.bytes, vec![1]);
    let f = parse("x:bool='false'").unwrap();
    assert_eq!(f.value.bytes, vec![0]);
    assert!(parse("x:bool='True'").is_err());
    assert!(parse("x:bool=''").is_err());
}

#[test]
fn u8_boundary() {
    let ok = parse("n:u8='255'").unwrap();
    assert_eq!(ok.value.bytes, vec![255]);
    let err = parse("n:u8='256'").unwrap_err();
    assert!(matches!(
        err,
        CliError::InvalidNumber { tag: BaseTag::U8, .. }
    ));
}

#[test]
fn u128_boundary() {
    // 2^128 - 1 fits; 2^128 does not.
    let max = "340282366920938463463374607431768211455";
    let over = "340282366920938463463374607431768211456";
    let ok = parse(&format!("n:u128='{}'", max)).unwrap();
    let mut expected = vec![16u8];
    expected.extend(std::iter::repeat(0xFFu8).take(16));
    assert_eq!(ok.value.bytes, expected);
    let err = parse(&format!("n:u128='{}'", over)).unwrap_err();
    assert!(matches!(
        err,
        CliError::InvalidNumber { tag: BaseTag::U128, .. }
    ));
}

#[test]
fn u512_small_and_zero() {
    let small = parse("n:u512='8'").unwrap();
    assert_eq!(small.value.bytes, vec![1, 8]);
    let zero = parse("n:u512='0'").unwrap();
    assert_eq!(zero.value.bytes, vec![0]);
}

#[test]
fn u512_boundary() {
    // 2^512 - 1 fits; 2^512 does not.
    let max = "13407807929942597099574024998205846127479365820592393377723561443721764030073546976801874298166903427690031858186486050853753882811946569946433649006084095";
    let over = "13407807929942597099574024998205846127479365820592393377723561443721764030073546976801874298166903427690031858186486050853753882811946569946433649006084096";
    let ok = parse(&format!("n:u512='{}'", max)).unwrap();
    assert_eq!(ok.value.bytes.len(), 1 + 64);
    assert!(parse(&format!("n:u512='{}'", over)).is_err());
}

#[test]
fn i32_negative() {
    let arg = parse("n:i32='-1'").unwrap();
    assert_eq!(arg.value.bytes, vec![0xFF, 0xFF, 0xFF, 0xFF]);
}

#[test]
fn i64_extremes() {
    let min = parse("n:i64='-9223372036854775808'").unwrap();
    assert_eq!(min.value.bytes, vec![0, 0, 0, 0, 0, 0, 0, 0x80]);
    let max = parse("n:i64='9223372036854775807'").unwrap();
    assert_eq!(max.value.bytes, vec![0xFF, 0xFF, 0xFF, 0xFF, 0xFF, 0xFF, 0xFF, 0x7F]);
    assert!(parse("n:i64='-9223372036854775809'").is_err());
    assert!(parse("n:i64='9223372036854775808'").is_err());
}

#[test]
fn leading_plus_is_standard_parse() {
    assert_eq!(parse("n:u32='+7'").unwrap().value.bytes, vec![7, 0, 0, 0]);
    assert_eq!(parse("n:i32='+7'").unwrap().value.bytes, vec![7, 0, 0, 0]);
    // Wide unsigned parsing is plain decimal: no sign characters.
    assert!(parse("n:u128='+7'").is_err());
}

#[test]
fn string_is_length_prefixed() {
    let arg = parse("s:string='Hello'").unwrap();
    let mut expected = vec![5u8, 0, 0, 0];
    expected.extend(b("Hello"));
    assert_eq!(arg.value.bytes, expected);
}

#[test]
fn string_value_may_contain_delimiters() {
    let arg = parse("s:string='a:b=c'").unwrap();
    let mut expected = vec![5u8, 0, 0, 0];
    expected.extend(b("a:b=c"));
    assert_eq!(arg.value.bytes, expected);
}

#[test]
fn unit_takes_empty_value_only() {
    let arg = parse("u:unit=''").unwrap();
    assert_eq!(arg.value.bytes, Vec::<u8>::new());
    let err = parse("u:unit='x'").unwrap_err();
    assert!(matches!(
        err,
        CliError::InvalidFormattedString { tag: BaseTag::Unit, .. }
    ));
}

#[test]
fn account_hash_key() {
    // Scenario: a key argument holding an account-hash formatted string
    // decodes to the account variant with its 32-byte body.
    let body = "0a".repeat(32);
    let arg = parse(&format!("key_name:key='account-hash-{}'", body)).unwrap();
    assert_eq!(arg.name, b("key_name"));
    assert_eq!(arg.value.tag, tag(false, BaseTag::Key));
    let mut expected = vec![0u8];
    expected.extend(std::iter::repeat(0x0Au8).take(32));
    assert_eq!(arg.value.bytes, expected);
}

#[test]
fn hash_key() {
    let body = "ff".repeat(32);
    let arg = parse(&format!("k:key='hash-{}'", body)).unwrap();
    let mut expected = vec![1u8];
    expected.extend(std::iter::repeat(0xFFu8).take(32));
    assert_eq!(arg.value.bytes, expected);
}

#[test]
fn uref_key_and_uref() {
    let body = "12".repeat(32);
    let key_arg = parse(&format!("k:key='uref-{}-007'", body)).unwrap();
    let mut expected = vec![2u8];
    expected.extend(std::iter::repeat(0x12u8).take(32));
    expected.push(7);
    assert_eq!(key_arg.value.bytes, expected);

    let uref_arg = parse(&format!("u:uref='uref-{}-007'", body)).unwrap();
    let mut expected = Vec::new();
    expected.extend(std::iter::repeat(0x12u8).take(32));
    expected.push(7);
    assert_eq!(uref_arg.value.bytes, expected);
}

#[test]
fn uref_rejects_bad_rights_and_bad_hex() {
    let body = "12".repeat(32);
    assert!(parse(&format!("u:uref='uref-{}-008'", body)).is_err());
    assert!(parse(&format!("u:uref='uref-{}-07'", body)).is_err());
    let bad = "zz".repeat(32);
    let err = parse(&format!("u:uref='uref-{}-007'", bad)).unwrap_err();
    assert!(matches!(
        err,
        CliError::InvalidFormattedString { tag: BaseTag::URef, .. }
    ));
}

#[test]
fn account_hash_rejects_wrong_length() {
    let body = "0a".repeat(31);
    let err = parse(&format!("a:account_hash='account-hash-{}'", body)).unwrap_err();
    assert!(matches!(
        err,
        CliError::InvalidFormattedString { tag: BaseTag::AccountHash, .. }
    ));
}

#[test]
fn public_keys_both_algorithms() {
    let ed = format!("p:public_key='01{}'", "ab".repeat(32));
    let arg = parse(&ed).unwrap();
    let mut expected = vec![1u8];
    expected.extend(std::iter::repeat(0xABu8).take(32));
    assert_eq!(arg.value.bytes, expected);

    let secp = format!("p:public_key='02{}'", "cd".repeat(33));
    let arg = parse(&secp).unwrap();
    let mut expected = vec![2u8];
    expected.extend(std::iter::repeat(0xCDu8).take(33));
    assert_eq!(arg.value.bytes, expected);

    // An ed25519 key with a secp256k1 length is rejected, and vice versa.
    assert!(parse(&format!("p:public_key='01{}'", "ab".repeat(33))).is_err());
    assert!(parse(&format!("p:public_key='02{}'", "cd".repeat(32))).is_err());
}

#[test]
fn optional_null_and_some() {
    let none = parse("n:opt_u64=null").unwrap();
    assert_eq!(none.value.tag, tag(true, BaseTag::U64));
    assert_eq!(none.value.bytes, vec![0]);

    let some = parse("n:opt_u64='999'").unwrap();
    assert_eq!(some.value.bytes, vec![1, 0xE7, 0x03, 0, 0, 0, 0, 0, 0]);

    // Quoted 'null' is the five... four characters, not the absent value:
    // for an optional string it is a present value.
    let s = parse("n:opt_string='null'").unwrap();
    let mut expected = vec![1u8, 4, 0, 0, 0];
    expected.extend(b("null"));
    assert_eq!(s.value.bytes, expected);
}

#[test]
fn null_rejected_for_non_optional() {
    let err = parse("n:u64=null").unwrap_err();
    assert!(matches!(
        err,
        CliError::InvalidFormattedString { tag: BaseTag::U64, .. }
    ));
}

#[test]
fn unknown_type_tag() {
    let err = parse("n:float='1.5'").unwrap_err();
    match err {
        CliError::UnknownType { tag } => assert_eq!(tag, b("float")),
        other => panic!("expected UnknownType, got {:?}", other),
    }
    assert!(matches!(
        parse("n:opt_opt_u8='1'").unwrap_err(),
        CliError::UnknownType { .. }
    ));
    // Tag matching is case-sensitive.
    assert!(matches!(
        parse("n:U64='1'").unwrap_err(),
        CliError::UnknownType { .. }
    ));
}

#[test]
fn malformed_arguments() {
    for raw in [
        "no_colon='1'",
        "name:u64",
        "name:u64=1",
        "name:u64='1",
        "name:u64=1'",
        ":u64='1'",
        "",
    ] {
        let err = parse(raw).unwrap_err();
        match err {
            CliError::MalformedArgument { arg } => assert_eq!(arg, b(raw)),
            other => panic!("expected MalformedArgument for {:?}, got {:?}", raw, other),
        }
    }
}

#[test]
fn splits_on_first_colon_and_first_equals() {
    // The quoted value may contain further delimiters; the type text is
    // whatever stands between the first ':' and the first '=' after it.
    let arg = parse("a:string='x=y:z'").unwrap();
    assert_eq!(arg.name, b("a"));
    let mut expected = vec![5u8, 0, 0, 0];
    expected.extend(b("x=y:z"));
    assert_eq!(arg.value.bytes, expected);
}

#[test]
fn encoded_values_decode_back() {
    // The round-trip law, exercised at runtime: decoding an argument's
    // bytes with its own tag, then re-encoding, reproduces the bytes.
    let samples = [
        "a:bool='true'",
        "b:i32='-123456'",
        "c:i64='789'",
        "d:u8='200'",
        "e:u32='4294967295'",
        "f:u64='18446744073709551615'",
        "g:u128='340282366920938463463374607431768211455'",
        "h:u256='115792089237316195423570985008687907853269984665640564039457584007913129639935'",
        "i:u512='98765432109876543210'",
        "j:unit=''",
        "k:string='round trip'",
        "l:opt_u8='9'",
        "m:opt_u8=null",
    ];
    for raw in samples {
        let arg = parse(raw).unwrap();
        let value = decode_value_bytes(arg.value.tag, &arg.value.bytes)
            .unwrap_or_else(|| panic!("bytes of {:?} failed to decode", raw));
        let re = encode_exec_value(&value);
        assert_eq!(re, arg.value.bytes, "re-encoding {:?} changed the bytes", raw);
    }
}

#[test]
fn decoded_value_matches_parsed_value() {
    let arg = parse("x:u8='7'").unwrap();
    let value = decode_value_bytes(arg.value.tag, &arg.value.bytes).unwrap();
    assert_eq!(value, Value::Plain(PlainValue::U8(7)));

    let arg = parse("x:opt_u8=null").unwrap();
    let value = decode_value_bytes(arg.value.tag, &arg.value.bytes).unwrap();
    assert_eq!(value, Value::OptNone(BaseTag::U8));
}

#[test]
fn typed_arg_fields_are_as_documented() {
    let arg = TypedArg {
        name: b("n"),
        value: EncodedValue { tag: tag(false, BaseTag::U8), bytes: vec![1] },
    };
    assert_eq!(arg.name, b("n"));
    assert_eq!(arg.value.bytes, vec![1]);
}
