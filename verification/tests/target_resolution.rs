//! Session and payment target resolution.
use casper_deploy_core::errors::{CliError, FieldLabel, TargetLabel};
use casper_deploy_core::tags::BaseTag;
use casper_deploy_core::targets::{
    resolve_payment, resolve_session, ExecutionTarget, PaymentOptions, SessionOptions,
};

fn b(s: &str) -> Vec<u8> {
    s.as_bytes().to_vec()
}

fn no_session() -> SessionOptions {
    SessionOptions {
        transfer: false,
        path: None,
        hash: None,
        name: None,
        package_hash: None,
        package_name: None,
        entry_point: None,
        version: None,
    }
}

fn no_payment() -> PaymentOptions {
    PaymentOptions {
        amount: None,
        path: None,
        hash: None,
        name: None,
        package_hash: None,
        package_name: None,
        entry_point: None,
        version: None,
    }
}

#[test]
fn session_path_alone_is_inline_code() {
    // Scenario: only the module path present resolves to inline code.
    let opts = SessionOptions { path: Some(b("code.wasm")), ..no_session() };
    let target = resolve_session(opts).unwrap();
    assert_eq!(target, ExecutionTarget::InlineCode { wasm_path: b("code.wasm") });
}

#[test]
fn session_hash_and_name_conflict() {
    // Scenario: two mutually exclusive source fields present.
    let opts = SessionOptions {
        hash: Some(b("0101")),
        name: Some(b("x")),
        entry_point: Some(b("call")),
        ..no_session()
    };
    let err = resolve_session(opts).unwrap_err();
    match err {
        CliError::ConflictingArguments { context, fields } => {
            assert_eq!(context, TargetLabel::Session);
            assert_eq!(fields, vec![FieldLabel::ContractHash, FieldLabel::ContractName]);
        },
        other => panic!("expected ConflictingArguments, got {:?}", other),
    }
}

#[test]
fn session_nothing_present_fails_distinctly() {
    let err = resolve_session(no_session()).unwrap_err();
    assert!(matches!(
        err,
        CliError::MissingRequiredField { context: TargetLabel::Session, field: FieldLabel::Target }
    ));
}

#[test]
fn session_transfer() {
    let opts = SessionOptions { transfer: true, ..no_session() };
    assert_eq!(resolve_session(opts).unwrap(), ExecutionTarget::Transfer);
}

#[test]
fn session_transfer_beats_nothing_but_conflicts_with_path() {
    let opts = SessionOptions { transfer: true, path: Some(b("w")), ..no_session() };
    let err = resolve_session(opts).unwrap_err();
    match err {
        CliError::ConflictingArguments { fields, .. } => {
            // Present labels come in priority order: transfer first.
            assert_eq!(fields, vec![FieldLabel::Transfer, FieldLabel::ModulePath]);
        },
        other => panic!("expected ConflictingArguments, got {:?}", other),
    }
}

#[test]
fn session_stored_contract_needs_entry_point() {
    let opts = SessionOptions { hash: Some(b("0101")), ..no_session() };
    let err = resolve_session(opts).unwrap_err();
    assert!(matches!(
        err,
        CliError::MissingRequiredField {
            context: TargetLabel::Session,
            field: FieldLabel::EntryPoint
        }
    ));
    // An empty entry point counts as absent.
    let opts = SessionOptions { hash: Some(b("0101")), entry_point: Some(b("")), ..no_session() };
    assert!(resolve_session(opts).is_err());

    let opts = SessionOptions {
        hash: Some(b("0101")),
        entry_point: Some(b("call")),
        ..no_session()
    };
    assert_eq!(
        resolve_session(opts).unwrap(),
        ExecutionTarget::StoredContractByHash { hash: b("0101"), entry_point: b("call") }
    );
}

#[test]
fn session_stored_contract_by_name() {
    let opts = SessionOptions {
        name: Some(b("my-contract")),
        entry_point: Some(b("run")),
        ..no_session()
    };
    assert_eq!(
        resolve_session(opts).unwrap(),
        ExecutionTarget::StoredContractByName { name: b("my-contract"), entry_point: b("run") }
    );
}

#[test]
fn session_package_versions() {
    let opts = SessionOptions {
        package_hash: Some(b("abcd")),
        entry_point: Some(b("go")),
        version: Some(b("2")),
        ..no_session()
    };
    assert_eq!(
        resolve_session(opts).unwrap(),
        ExecutionTarget::StoredPackageByHash {
            hash: b("abcd"),
            version: Some(2),
            entry_point: b("go"),
        }
    );

    // Absent or empty version means latest.
    let opts = SessionOptions {
        package_name: Some(b("pkg")),
        entry_point: Some(b("go")),
        version: Some(b("")),
        ..no_session()
    };
    assert_eq!(
        resolve_session(opts).unwrap(),
        ExecutionTarget::StoredPackageByName {
            name: b("pkg"),
            version: None,
            entry_point: b("go"),
        }
    );

    // A non-numeric version is rejected.
    let opts = SessionOptions {
        package_hash: Some(b("abcd")),
        entry_point: Some(b("go")),
        version: Some(b("latest")),
        ..no_session()
    };
    assert!(matches!(
        resolve_session(opts).unwrap_err(),
        CliError::InvalidNumber { tag: BaseTag::U32, .. }
    ));
}

#[test]
fn session_version_ignored_for_contract_variants() {
    // A version with a stored contract is documented as ignored, not an
    // error.
    let opts = SessionOptions {
        hash: Some(b("0101")),
        entry_point: Some(b("call")),
        version: Some(b("not-a-number")),
        ..no_session()
    };
    assert_eq!(
        resolve_session(opts).unwrap(),
        ExecutionTarget::StoredContractByHash { hash: b("0101"), entry_point: b("call") }
    );
}

#[test]
fn session_entry_point_conflicts_with_inline_code() {
    let opts = SessionOptions {
        path: Some(b("w")),
        entry_point: Some(b("call")),
        ..no_session()
    };
    let err = resolve_session(opts).unwrap_err();
    match err {
        CliError::ConflictingArguments { fields, .. } => {
            assert_eq!(fields, vec![FieldLabel::ModulePath, FieldLabel::EntryPoint]);
        },
        other => panic!("expected ConflictingArguments, got {:?}", other),
    }
}

#[test]
fn payment_amount_is_standard_payment() {
    let opts = PaymentOptions { amount: Some(b("10000")), ..no_payment() };
    assert_eq!(
        resolve_payment(opts).unwrap(),
        ExecutionTarget::StandardPayment { amount: b("10000") }
    );
}

#[test]
fn payment_amount_must_be_a_number() {
    let opts = PaymentOptions { amount: Some(b("ten")), ..no_payment() };
    assert!(matches!(
        resolve_payment(opts).unwrap_err(),
        CliError::InvalidNumber { tag: BaseTag::U512, .. }
    ));
}

#[test]
fn payment_amount_conflicts_with_path() {
    let opts = PaymentOptions {
        amount: Some(b("1")),
        path: Some(b("pay.wasm")),
        ..no_payment()
    };
    let err = resolve_payment(opts).unwrap_err();
    match err {
        CliError::ConflictingArguments { context, fields } => {
            assert_eq!(context, TargetLabel::Payment);
            // Amount has the highest priority in the listing.
            assert_eq!(fields, vec![FieldLabel::Amount, FieldLabel::ModulePath]);
        },
        other => panic!("expected ConflictingArguments, got {:?}", other),
    }
}

#[test]
fn payment_nothing_present_fails_distinctly() {
    let err = resolve_payment(no_payment()).unwrap_err();
    assert!(matches!(
        err,
        CliError::MissingRequiredField { context: TargetLabel::Payment, field: FieldLabel::Target }
    ));
}

#[test]
fn payment_stored_variants() {
    let opts = PaymentOptions {
        hash: Some(b("aa")),
        entry_point: Some(b("pay")),
        ..no_payment()
    };
    assert_eq!(
        resolve_payment(opts).unwrap(),
        ExecutionTarget::StoredContractByHash { hash: b("aa"), entry_point: b("pay") }
    );

    let opts = PaymentOptions {
        package_name: Some(b("pkg")),
        entry_point: Some(b("pay")),
        version: Some(b("7")),
        ..no_payment()
    };
    assert_eq!(
        resolve_payment(opts).unwrap(),
        ExecutionTarget::StoredPackageByName {
            name: b("pkg"),
            version: Some(7),
            entry_point: b("pay"),
        }
    );
}

#[test]
fn payment_path_is_inline_code() {
    let opts = PaymentOptions { path: Some(b("pay.wasm")), ..no_payment() };
    assert_eq!(
        resolve_payment(opts).unwrap(),
        ExecutionTarget::InlineCode { wasm_path: b("pay.wasm") }
    );
}

#[test]
fn three_present_fields_all_listed() {
    let opts = SessionOptions {
        transfer: true,
        hash: Some(b("h")),
        package_name: Some(b("p")),
        ..no_session()
    };
    let err = resolve_session(opts).unwrap_err();
    match err {
        CliError::ConflictingArguments { fields, .. } => {
            assert_eq!(
                fields,
                vec![FieldLabel::Transfer, FieldLabel::ContractHash, FieldLabel::PackageName]
            );
        },
        other => panic!("expected ConflictingArguments, got {:?}", other),
    }
}
