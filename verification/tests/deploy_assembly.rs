//! Assembling deploy parameters, and the put-deploy pipeline.
use casper_deploy_core::deploy::{
    assemble, DeployCreationParams, DeployMetadata, PutDeploy,
};
use casper_deploy_core::errors::CliError;
use casper_deploy_core::help::{supported_type_examples, supported_type_list};
use casper_deploy_core::args::parse_arg;
use casper_deploy_core::tags::{tag_from_bytes, BaseTag};
use casper_deploy_core::targets::{ExecutionTarget, PaymentOptions, SessionOptions};
use casper_deploy_core::values::{decode_value_bytes, encode_exec_value};

fn b(s: &str) -> Vec<u8> {
    s.as_bytes().to_vec()
}

fn meta() -> DeployMetadata {
    DeployMetadata {
        timestamp: b(""),
        ttl: b("30min"),
        chain_name: b("casper-test"),
        session_account: b(""),
    }
}

fn no_session() -> SessionOptions {
    SessionOptions {
        transfer: false,
        path: None,
        hash: None,
        name: None,
        package_hash: None,
        package_name: None,
        entry_point: None,
        version: None,
    }
}

fn no_payment() -> PaymentOptions {
    PaymentOptions {
        amount: None,
        path: None,
        hash: None,
        name: None,
        package_hash: None,
        package_name: None,
        entry_point: None,
        version: None,
    }
}

#[test]
fn assemble_preserves_argument_order() {
    // Order preservation: the typed arguments come out exactly in input
    // order, never re-sorted.
    let session = ExecutionTarget::InlineCode { wasm_path: b("code.wasm") };
    let payment = ExecutionTarget::StandardPayment { amount: b("1") };
    let args = vec![b("a:u32='1'"), b("b:string='x'")];
    let params = assemble(session, &args, payment, &vec![], meta()).unwrap();
    assert_eq!(params.session_args.len(), 2);
    assert_eq!(params.session_args[0].name, b("a"));
    assert_eq!(params.session_args[0].value.tag.base, BaseTag::U32);
    assert_eq!(params.session_args[1].name, b("b"));
    assert_eq!(params.session_args[1].value.tag.base, BaseTag::Str);
    assert!(params.payment_args.is_empty());
}

#[test]
fn assemble_fails_fast_on_first_bad_argument() {
    let session = ExecutionTarget::Transfer;
    let payment = ExecutionTarget::StandardPayment { amount: b("1") };
    let args = vec![b("ok:u8='1'"), b("bad:u8='999'"), b("also_bad:nope='1'")];
    let err = assemble(session, &args, payment, &vec![], meta()).unwrap_err();
    // The second argument fails first; the third is never reached.
    assert!(matches!(err, CliError::InvalidNumber { tag: BaseTag::U8, .. }));
}

#[test]
fn assemble_session_errors_before_payment_errors() {
    let session = ExecutionTarget::Transfer;
    let payment = ExecutionTarget::StandardPayment { amount: b("1") };
    let sargs = vec![b("bad:u8='999'")];
    let pargs = vec![b("worse:nope='1'")];
    let err = assemble(session, &sargs, payment, &pargs, meta()).unwrap_err();
    assert!(matches!(err, CliError::InvalidNumber { .. }));
}

#[test]
fn build_deploy_params_full_pipeline() {
    let session_opts = SessionOptions {
        hash: Some(b("0102")),
        entry_point: Some(b("do_thing")),
        ..no_session()
    };
    let payment_opts = PaymentOptions { amount: Some(b("10000")), ..no_payment() };
    let sargs = vec![b("amount:u64='1000000'"), b("target:string='bob'")];
    let params: DeployCreationParams = PutDeploy::build_deploy_params(
        session_opts,
        &sargs,
        payment_opts,
        &vec![],
        meta(),
    )
    .unwrap();
    assert_eq!(
        params.session,
        ExecutionTarget::StoredContractByHash { hash: b("0102"), entry_point: b("do_thing") }
    );
    assert_eq!(params.payment, ExecutionTarget::StandardPayment { amount: b("10000") });
    assert_eq!(params.session_args.len(), 2);
    assert_eq!(params.session_args[0].name, b("amount"));
    assert_eq!(params.session_args[1].name, b("target"));
    assert_eq!(params.metadata.chain_name, b("casper-test"));
}

#[test]
fn build_deploy_params_reports_session_resolution_first() {
    // Both targets are unresolvable; the session error comes first.
    let err = PutDeploy::build_deploy_params(
        no_session(),
        &vec![],
        no_payment(),
        &vec![],
        meta(),
    )
    .unwrap_err();
    assert!(matches!(
        err,
        CliError::MissingRequiredField {
            context: casper_deploy_core::errors::TargetLabel::Session,
            ..
        }
    ));
}

#[test]
fn every_listed_type_resolves() {
    let tags = supported_type_list();
    assert_eq!(tags.len(), 30);
    for t in &tags {
        assert!(
            tag_from_bytes(t.as_slice()).is_some(),
            "listed tag {:?} did not resolve",
            String::from_utf8_lossy(t)
        );
    }
}

#[test]
fn example_listing_golden_lines() {
    // The listing is part of the observable contract: fixed text, fixed
    // order (base types first, optional wrappers after).
    let examples = supported_type_examples();
    let as_text: Vec<String> = examples
        .iter()
        .map(|l| String::from_utf8(l.clone()).unwrap())
        .collect();
    assert_eq!(as_text[0], "bool:bool='false'");
    assert_eq!(as_text[1], "i32:i32='-1'");
    assert_eq!(as_text[3], "u8:u8='3'");
    assert_eq!(as_text[9], "unit:unit=''");
    assert_eq!(as_text[10], "string:string='Hello, world!'");
    assert_eq!(
        as_text[12],
        format!("account_hash:account_hash='account-hash-{}'", "0".repeat(64))
    );
    assert_eq!(
        as_text[13],
        format!("uref:uref='uref-{}-007'", "0".repeat(64))
    );
    assert_eq!(as_text[15], "opt_bool:opt_bool='false'");
    assert_eq!(as_text[29], format!("opt_public_key:opt_public_key='01{}'", "0".repeat(64)));
}

#[test]
fn every_example_parses_and_round_trips() {
    // The diagnostic listing and the parser are computed from the same
    // registry: every printed example must parse, and its encoded bytes
    // must decode back to a value that re-encodes identically.
    let examples = supported_type_examples();
    assert_eq!(examples.len(), 30);
    for line in &examples {
        let arg = parse_arg(line.as_slice()).unwrap_or_else(|e| {
            panic!(
                "example {:?} failed to parse: {:?}",
                String::from_utf8_lossy(line),
                e
            )
        });
        let value = decode_value_bytes(arg.value.tag, &arg.value.bytes).unwrap();
        assert_eq!(encode_exec_value(&value), arg.value.bytes);
    }
}
