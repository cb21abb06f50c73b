//! The target resolver.
//!
//! A deploy names two code sources: the session (what runs) and the
//! payment (how it is funded).  Each is given as a set of optionally
//! present fields, of which exactly one must be present.  Presence is
//! evaluated in a fixed priority order — for the session: transfer flag,
//! module path, contract hash, contract name, package hash, package
//! name; for the payment: standard-payment amount first, then the same
//! order without the transfer flag.  Zero present fields and two or more
//! present fields both fail, each with its own error.
//!
//! The entry point is required, non-empty, for the four stored variants,
//! and must be absent or empty for the others.  The version is read only
//! for the two package variants and ignored elsewhere; for a package it
//! must be empty (meaning: latest) or an unsigned 32-bit number.  For a
//! standard payment, the amount must be an unsigned decimal that fits
//! 512 bits.
use vstd::prelude::*;

use crate::bytes_le::pow256;
use crate::decimal::{all_digits, dec_value, unsigned_body, unsigned_ok};
use crate::errors::{CliError, CliErrorModel, FieldLabel, TargetLabel};
use crate::tags::BaseTag;

verus! {

/// The optionally present source fields of a session target.
#[derive(Clone, Debug, PartialEq, Eq)]
pub struct SessionOptions {
    /// Make the session a native transfer.
    pub transfer: bool,
    /// Path to a compiled Wasm module.
    pub path: Option<Vec<u8>>,
    /// Hash of a stored contract.
    pub hash: Option<Vec<u8>>,
    /// Name of a stored contract.
    pub name: Option<Vec<u8>>,
    /// Hash of a stored package.
    pub package_hash: Option<Vec<u8>>,
    /// Name of a stored package.
    pub package_name: Option<Vec<u8>>,
    /// Entry point within a stored contract or package.
    pub entry_point: Option<Vec<u8>>,
    /// Version of a stored package; empty or absent means latest.
    pub version: Option<Vec<u8>>,
}

/// The optionally present source fields of a payment target.
#[derive(Clone, Debug, PartialEq, Eq)]
pub struct PaymentOptions {
    /// Amount for the standard-payment system contract.
    pub amount: Option<Vec<u8>>,
    /// Path to a compiled Wasm module.
    pub path: Option<Vec<u8>>,
    /// Hash of a stored contract.
    pub hash: Option<Vec<u8>>,
    /// Name of a stored contract.
    pub name: Option<Vec<u8>>,
    /// Hash of a stored package.
    pub package_hash: Option<Vec<u8>>,
    /// Name of a stored package.
    pub package_name: Option<Vec<u8>>,
    /// Entry point within a stored contract or package.
    pub entry_point: Option<Vec<u8>>,
    /// Version of a stored package; empty or absent means latest.
    pub version: Option<Vec<u8>>,
}

/// Mathematical model of [`SessionOptions`].
pub struct SessionOptionsModel {
    pub transfer: bool,
    pub path: Option<Seq<u8>>,
    pub hash: Option<Seq<u8>>,
    pub name: Option<Seq<u8>>,
    pub package_hash: Option<Seq<u8>>,
    pub package_name: Option<Seq<u8>>,
    pub entry_point: Option<Seq<u8>>,
    pub version: Option<Seq<u8>>,
}

/// Mathematical model of [`PaymentOptions`].
pub struct PaymentOptionsModel {
    pub amount: Option<Seq<u8>>,
    pub path: Option<Seq<u8>>,
    pub hash: Option<Seq<u8>>,
    pub name: Option<Seq<u8>>,
    pub package_hash: Option<Seq<u8>>,
    pub package_name: Option<Seq<u8>>,
    pub entry_point: Option<Seq<u8>>,
    pub version: Option<Seq<u8>>,
}

/// The view of an optional byte vector.
pub open spec fn opt_view(o: Option<Vec<u8>>) -> Option<Seq<u8>> {
    match o {
        Some(v) => Some(v@),
        None => None,
    }
}

impl View for SessionOptions {
    type V = SessionOptionsModel;

    open spec fn view(&self) -> SessionOptionsModel {
        SessionOptionsModel {
            transfer: self.transfer,
            path: opt_view(self.path),
            hash: opt_view(self.hash),
            name: opt_view(self.name),
            package_hash: opt_view(self.package_hash),
            package_name: opt_view(self.package_name),
            entry_point: opt_view(self.entry_point),
            version: opt_view(self.version),
        }
    }
}

impl View for PaymentOptions {
    type V = PaymentOptionsModel;

    open spec fn view(&self) -> PaymentOptionsModel {
        PaymentOptionsModel {
            amount: opt_view(self.amount),
            path: opt_view(self.path),
            hash: opt_view(self.hash),
            name: opt_view(self.name),
            package_hash: opt_view(self.package_hash),
            package_name: opt_view(self.package_name),
            entry_point: opt_view(self.entry_point),
            version: opt_view(self.version),
        }
    }
}

/// One resolved code source.  `Transfer` is valid only as a session
/// target; `StandardPayment` only as a payment target.
#[derive(Clone, Debug, PartialEq, Eq)]
pub enum ExecutionTarget {
    /// Wasm module code read from a path.
    InlineCode { wasm_path: Vec<u8> },
    /// A stored contract, addressed by hash.
    StoredContractByHash { hash: Vec<u8>, entry_point: Vec<u8> },
    /// A stored contract, addressed by name.
    StoredContractByName { name: Vec<u8>, entry_point: Vec<u8> },
    /// A stored package, addressed by hash, at a version (`None` for
    /// latest).
    StoredPackageByHash { hash: Vec<u8>, version: Option<u32>, entry_point: Vec<u8> },
    /// A stored package, addressed by name, at a version (`None` for
    /// latest).
    StoredPackageByName { name: Vec<u8>, version: Option<u32>, entry_point: Vec<u8> },
    /// A native transfer (session only).
    Transfer,
    /// The standard-payment system contract (payment only).
    StandardPayment { amount: Vec<u8> },
}

/// Mathematical model of an [`ExecutionTarget`].
pub enum ExecutionTargetModel {
    InlineCode { wasm_path: Seq<u8> },
    StoredContractByHash { hash: Seq<u8>, entry_point: Seq<u8> },
    StoredContractByName { name: Seq<u8>, entry_point: Seq<u8> },
    StoredPackageByHash { hash: Seq<u8>, version: Option<u32>, entry_point: Seq<u8> },
    StoredPackageByName { name: Seq<u8>, version: Option<u32>, entry_point: Seq<u8> },
    Transfer,
    StandardPayment { amount: Seq<u8> },
}

impl View for ExecutionTarget {
    type V = ExecutionTargetModel;

    open spec fn view(&self) -> ExecutionTargetModel {
        match self {
            ExecutionTarget::InlineCode { wasm_path } => ExecutionTargetModel::InlineCode {
                wasm_path: wasm_path@,
            },
            ExecutionTarget::StoredContractByHash { hash, entry_point } => ExecutionTargetModel::StoredContractByHash {
                hash: hash@,
                entry_point: entry_point@,
            },
            ExecutionTarget::StoredContractByName { name, entry_point } => ExecutionTargetModel::StoredContractByName {
                name: name@,
                entry_point: entry_point@,
            },
            ExecutionTarget::StoredPackageByHash { hash, version, entry_point } => ExecutionTargetModel::StoredPackageByHash {
                hash: hash@,
                version: *version,
                entry_point: entry_point@,
            },
            ExecutionTarget::StoredPackageByName { name, version, entry_point } => ExecutionTargetModel::StoredPackageByName {
                name: name@,
                version: *version,
                entry_point: entry_point@,
            },
            ExecutionTarget::Transfer => ExecutionTargetModel::Transfer,
            ExecutionTarget::StandardPayment { amount } => ExecutionTargetModel::StandardPayment {
                amount: amount@,
            },
        }
    }
}

/// The labels of the present session source fields, in priority order.
pub open spec fn session_present_fields(o: SessionOptionsModel) -> Seq<FieldLabel> {
    (if o.transfer {
        seq![FieldLabel::Transfer]
    } else {
        Seq::empty()
    }) + (if o.path is Some {
        seq![FieldLabel::ModulePath]
    } else {
        Seq::empty()
    }) + (if o.hash is Some {
        seq![FieldLabel::ContractHash]
    } else {
        Seq::empty()
    }) + (if o.name is Some {
        seq![FieldLabel::ContractName]
    } else {
        Seq::empty()
    }) + (if o.package_hash is Some {
        seq![FieldLabel::PackageHash]
    } else {
        Seq::empty()
    }) + (if o.package_name is Some {
        seq![FieldLabel::PackageName]
    } else {
        Seq::empty()
    })
}

/// The labels of the present payment source fields, in priority order.
pub open spec fn payment_present_fields(o: PaymentOptionsModel) -> Seq<FieldLabel> {
    (if o.amount is Some {
        seq![FieldLabel::Amount]
    } else {
        Seq::empty()
    }) + (if o.path is Some {
        seq![FieldLabel::ModulePath]
    } else {
        Seq::empty()
    }) + (if o.hash is Some {
        seq![FieldLabel::ContractHash]
    } else {
        Seq::empty()
    }) + (if o.name is Some {
        seq![FieldLabel::ContractName]
    } else {
        Seq::empty()
    }) + (if o.package_hash is Some {
        seq![FieldLabel::PackageHash]
    } else {
        Seq::empty()
    }) + (if o.package_name is Some {
        seq![FieldLabel::PackageName]
    } else {
        Seq::empty()
    })
}

/// Is a required entry point present and non-empty?
pub open spec fn has_entry_point(e: Option<Seq<u8>>) -> bool {
    match e {
        Some(s) => s.len() > 0,
        None => false,
    }
}

/// Is the entry point absent or empty, as the non-stored variants
/// require?
pub open spec fn entry_point_absent(e: Option<Seq<u8>>) -> bool {
    match e {
        Some(s) => s.len() == 0,
        None => true,
    }
}

/// The package version a version field denotes: absent or empty means
/// latest, anything else must be an unsigned 32-bit decimal.
pub open spec fn version_spec(v: Option<Seq<u8>>) -> Result<Option<u32>, CliErrorModel> {
    match v {
        None => Ok(None),
        Some(s) => if s.len() == 0 {
            Ok(None)
        } else if unsigned_ok(s, u32::MAX as nat) {
            Ok(Some(dec_value(unsigned_body(s)) as u32))
        } else {
            Err(CliErrorModel::InvalidNumber { tag: BaseTag::U32, value: s })
        },
    }
}

/// Is an amount text an unsigned decimal that fits 512 bits?
pub open spec fn amount_ok(a: Seq<u8>) -> bool {
    a.len() > 0 && all_digits(a) && dec_value(a) < pow256(64)
}

/// What session resolution yields: the exclusivity checks, then the
/// variant of the one present field with its dependent fields.
pub open spec fn resolve_session_spec(o: SessionOptionsModel) -> Result<
    ExecutionTargetModel,
    CliErrorModel,
> {
    let fields = session_present_fields(o);
    if fields.len() == 0 {
        Err(
            CliErrorModel::MissingRequiredField {
                context: TargetLabel::Session,
                field: FieldLabel::Target,
            },
        )
    } else if fields.len() >= 2 {
        Err(CliErrorModel::ConflictingArguments { context: TargetLabel::Session, fields })
    } else if o.transfer {
        if entry_point_absent(o.entry_point) {
            Ok(ExecutionTargetModel::Transfer)
        } else {
            Err(
                CliErrorModel::ConflictingArguments {
                    context: TargetLabel::Session,
                    fields: seq![FieldLabel::Transfer, FieldLabel::EntryPoint],
                },
            )
        }
    } else {
        match o.path {
            Some(p) => if entry_point_absent(o.entry_point) {
                Ok(ExecutionTargetModel::InlineCode { wasm_path: p })
            } else {
                Err(
                    CliErrorModel::ConflictingArguments {
                        context: TargetLabel::Session,
                        fields: seq![FieldLabel::ModulePath, FieldLabel::EntryPoint],
                    },
                )
            },
            None => match o.hash {
                Some(h) => match o.entry_point {
                    Some(e) => if e.len() > 0 {
                        Ok(ExecutionTargetModel::StoredContractByHash { hash: h, entry_point: e })
                    } else {
                        Err(
                            CliErrorModel::MissingRequiredField {
                                context: TargetLabel::Session,
                                field: FieldLabel::EntryPoint,
                            },
                        )
                    },
                    None => Err(
                        CliErrorModel::MissingRequiredField {
                            context: TargetLabel::Session,
                            field: FieldLabel::EntryPoint,
                        },
                    ),
                },
                None => match o.name {
                    Some(nm) => match o.entry_point {
                        Some(e) => if e.len() > 0 {
                            Ok(
                                ExecutionTargetModel::StoredContractByName {
                                    name: nm,
                                    entry_point: e,
                                },
                            )
                        } else {
                            Err(
                                CliErrorModel::MissingRequiredField {
                                    context: TargetLabel::Session,
                                    field: FieldLabel::EntryPoint,
                                },
                            )
                        },
                        None => Err(
                            CliErrorModel::MissingRequiredField {
                                context: TargetLabel::Session,
                                field: FieldLabel::EntryPoint,
                            },
                        ),
                    },
                    None => match o.package_hash {
                        Some(h) => resolve_package_spec(
                            TargetLabel::Session,
                            true,
                            h,
                            o.entry_point,
                            o.version,
                        ),
                        None => match o.package_name {
                            Some(nm) => resolve_package_spec(
                                TargetLabel::Session,
                                false,
                                nm,
                                o.entry_point,
                                o.version,
                            ),
                            None => Err(
                                CliErrorModel::MissingRequiredField {
                                    context: TargetLabel::Session,
                                    field: FieldLabel::Target,
                                },
                            ),
                        },
                    },
                },
            },
        }
    }
}

/// The shared rule of the two package variants: a non-empty entry point,
/// then the version.
pub open spec fn resolve_package_spec(
    context: TargetLabel,
    by_hash: bool,
    id: Seq<u8>,
    entry_point: Option<Seq<u8>>,
    version: Option<Seq<u8>>,
) -> Result<ExecutionTargetModel, CliErrorModel> {
    if !has_entry_point(entry_point) {
        Err(CliErrorModel::MissingRequiredField { context, field: FieldLabel::EntryPoint })
    } else {
        match version_spec(version) {
            Err(e) => Err(e),
            Ok(v) => {
                let e = entry_point->Some_0;
                if by_hash {
                    Ok(
                        ExecutionTargetModel::StoredPackageByHash {
                            hash: id,
                            version: v,
                            entry_point: e,
                        },
                    )
                } else {
                    Ok(
                        ExecutionTargetModel::StoredPackageByName {
                            name: id,
                            version: v,
                            entry_point: e,
                        },
                    )
                }
            },
        }
    }
}

/// What payment resolution yields: the standard-payment amount takes
/// priority, then the same rules as for the session, without transfer.
pub open spec fn resolve_payment_spec(o: PaymentOptionsModel) -> Result<
    ExecutionTargetModel,
    CliErrorModel,
> {
    let fields = payment_present_fields(o);
    if fields.len() == 0 {
        Err(
            CliErrorModel::MissingRequiredField {
                context: TargetLabel::Payment,
                field: FieldLabel::Target,
            },
        )
    } else if fields.len() >= 2 {
        Err(CliErrorModel::ConflictingArguments { context: TargetLabel::Payment, fields })
    } else {
        match o.amount {
            Some(a) => if !entry_point_absent(o.entry_point) {
                Err(
                    CliErrorModel::ConflictingArguments {
                        context: TargetLabel::Payment,
                        fields: seq![FieldLabel::Amount, FieldLabel::EntryPoint],
                    },
                )
            } else if amount_ok(a) {
                Ok(ExecutionTargetModel::StandardPayment { amount: a })
            } else {
                Err(CliErrorModel::InvalidNumber { tag: BaseTag::U512, value: a })
            },
            None => match o.path {
                Some(p) => if entry_point_absent(o.entry_point) {
                    Ok(ExecutionTargetModel::InlineCode { wasm_path: p })
                } else {
                    Err(
                        CliErrorModel::ConflictingArguments {
                            context: TargetLabel::Payment,
                            fields: seq![FieldLabel::ModulePath, FieldLabel::EntryPoint],
                        },
                    )
                },
                None => match o.hash {
                    Some(h) => match o.entry_point {
                        Some(e) => if e.len() > 0 {
                            Ok(
                                ExecutionTargetModel::StoredContractByHash {
                                    hash: h,
                                    entry_point: e,
                                },
                            )
                        } else {
                            Err(
                                CliErrorModel::MissingRequiredField {
                                    context: TargetLabel::Payment,
                                    field: FieldLabel::EntryPoint,
                                },
                            )
                        },
                        None => Err(
                            CliErrorModel::MissingRequiredField {
                                context: TargetLabel::Payment,
                                field: FieldLabel::EntryPoint,
                            },
                        ),
                    },
                    None => match o.name {
                        Some(nm) => match o.entry_point {
                            Some(e) => if e.len() > 0 {
                                Ok(
                                    ExecutionTargetModel::StoredContractByName {
                                        name: nm,
                                        entry_point: e,
                                    },
                                )
                            } else {
                                Err(
                                    CliErrorModel::MissingRequiredField {
                                        context: TargetLabel::Payment,
                                        field: FieldLabel::EntryPoint,
                                    },
                                )
                            },
                            None => Err(
                                CliErrorModel::MissingRequiredField {
                                    context: TargetLabel::Payment,
                                    field: FieldLabel::EntryPoint,
                                },
                            ),
                        },
                        None => match o.package_hash {
                            Some(h) => resolve_package_spec(
                                TargetLabel::Payment,
                                true,
                                h,
                                o.entry_point,
                                o.version,
                            ),
                            None => match o.package_name {
                                Some(nm) => resolve_package_spec(
                                    TargetLabel::Payment,
                                    false,
                                    nm,
                                    o.entry_point,
                                    o.version,
                                ),
                                None => Err(
                                    CliErrorModel::MissingRequiredField {
                                        context: TargetLabel::Payment,
                                        field: FieldLabel::Target,
                                    },
                                ),
                            },
                        },
                    },
                },
            },
        }
    }
}

/// Is the entry point absent or empty?
fn ep_absent(e: &Option<Vec<u8>>) -> (r: bool)
    ensures
        r == entry_point_absent(opt_view(*e)),
{
    match e {
        None => true,
        Some(s) => s.len() == 0,
    }
}

/// Is a non-empty entry point present?
fn ep_present(e: &Option<Vec<u8>>) -> (r: bool)
    ensures
        r == has_entry_point(opt_view(*e)),
{
    match e {
        None => false,
        Some(s) => s.len() > 0,
    }
}

/// Parses a package version field: absent or empty means latest.
fn parse_version(v: Option<Vec<u8>>) -> (r: Result<Option<u32>, CliError>)
    ensures
        r matches Ok(ver) ==> version_spec(opt_view(v)) == Ok::<Option<u32>, CliErrorModel>(ver),
        r matches Err(e) ==> version_spec(opt_view(v)) == Err::<Option<u32>, CliErrorModel>(e@),
{
    match v {
        None => Ok(None),
        Some(s) => {
            if s.len() == 0 {
                Ok(None)
            } else {
                match crate::decimal::parse_u32_value(s.as_slice()) {
                    Some(n) => Ok(Some(n)),
                    None => Err(CliError::InvalidNumber { tag: BaseTag::U32, value: s }),
                }
            }
        },
    }
}

/// Builds the stored-package variant shared by both contexts.
fn resolve_package(
    context: TargetLabel,
    by_hash: bool,
    id: Vec<u8>,
    entry_point: Option<Vec<u8>>,
    version: Option<Vec<u8>>,
) -> (r: Result<ExecutionTarget, CliError>)
    ensures
        r matches Ok(t) ==> resolve_package_spec(
            context,
            by_hash,
            id@,
            opt_view(entry_point),
            opt_view(version),
        ) == Ok::<ExecutionTargetModel, CliErrorModel>(t@),
        r matches Err(e) ==> resolve_package_spec(
            context,
            by_hash,
            id@,
            opt_view(entry_point),
            opt_view(version),
        ) == Err::<ExecutionTargetModel, CliErrorModel>(e@),
{
    if !ep_present(&entry_point) {
        return Err(CliError::MissingRequiredField { context, field: FieldLabel::EntryPoint });
    }
    let ep = match entry_point {
        Some(e) => e,
        None => {
            return Err(CliError::MissingRequiredField { context, field: FieldLabel::EntryPoint });
        },
    };
    match parse_version(version) {
        Err(e) => Err(e),
        Ok(ver) => {
            if by_hash {
                Ok(ExecutionTarget::StoredPackageByHash { hash: id, version: ver, entry_point: ep })
            } else {
                Ok(ExecutionTarget::StoredPackageByName { name: id, version: ver, entry_point: ep })
            }
        },
    }
}

/// Resolves the session source options into one execution target.
/// Exactly one source field must be present: zero and two-or-more fail
/// with distinct errors.  The result is never `StandardPayment`.
pub fn resolve_session(o: SessionOptions) -> (r: Result<ExecutionTarget, CliError>)
    ensures
        r matches Ok(t) ==> resolve_session_spec(o@) == Ok::<ExecutionTargetModel, CliErrorModel>(
            t@,
        ) && !(t@ matches ExecutionTargetModel::StandardPayment { .. }),
        r matches Err(e) ==> resolve_session_spec(o@) == Err::<
            ExecutionTargetModel,
            CliErrorModel,
        >(e@),
{
    let mut fields: Vec<FieldLabel> = Vec::new();
    if o.transfer {
        fields.push(FieldLabel::Transfer);
    }
    if o.path.is_some() {
        fields.push(FieldLabel::ModulePath);
    }
    if o.hash.is_some() {
        fields.push(FieldLabel::ContractHash);
    }
    if o.name.is_some() {
        fields.push(FieldLabel::ContractName);
    }
    if o.package_hash.is_some() {
        fields.push(FieldLabel::PackageHash);
    }
    if o.package_name.is_some() {
        fields.push(FieldLabel::PackageName);
    }
    proof {
        assert(fields@ =~= session_present_fields(o@));
    }
    if fields.len() == 0 {
        return Err(
            CliError::MissingRequiredField {
                context: TargetLabel::Session,
                field: FieldLabel::Target,
            },
        );
    }
    if fields.len() >= 2 {
        return Err(CliError::ConflictingArguments { context: TargetLabel::Session, fields });
    }
    if o.transfer {
        if ep_absent(&o.entry_point) {
            return Ok(ExecutionTarget::Transfer);
        } else {
            let conflict: Vec<FieldLabel> = vec![FieldLabel::Transfer, FieldLabel::EntryPoint];
            proof {
                assert(conflict@ =~= seq![FieldLabel::Transfer, FieldLabel::EntryPoint]);
            }
            return Err(
                CliError::ConflictingArguments { context: TargetLabel::Session, fields: conflict },
            );
        }
    }
    if let Some(p) = o.path {
        if ep_absent(&o.entry_point) {
            return Ok(ExecutionTarget::InlineCode { wasm_path: p });
        } else {
            let conflict: Vec<FieldLabel> = vec![FieldLabel::ModulePath, FieldLabel::EntryPoint];
            proof {
                assert(conflict@ =~= seq![FieldLabel::ModulePath, FieldLabel::EntryPoint]);
            }
            return Err(
                CliError::ConflictingArguments { context: TargetLabel::Session, fields: conflict },
            );
        }
    }
    if let Some(h) = o.hash {
        if ep_present(&o.entry_point) {
            let ep = match o.entry_point {
                Some(e) => e,
                None => {
                    return Err(
                        CliError::MissingRequiredField {
                            context: TargetLabel::Session,
                            field: FieldLabel::EntryPoint,
                        },
                    );
                },
            };
            return Ok(ExecutionTarget::StoredContractByHash { hash: h, entry_point: ep });
        } else {
            return Err(
                CliError::MissingRequiredField {
                    context: TargetLabel::Session,
                    field: FieldLabel::EntryPoint,
                },
            );
        }
    }
    if let Some(nm) = o.name {
        if ep_present(&o.entry_point) {
            let ep = match o.entry_point {
                Some(e) => e,
                None => {
                    return Err(
                        CliError::MissingRequiredField {
                            context: TargetLabel::Session,
                            field: FieldLabel::EntryPoint,
                        },
                    );
                },
            };
            return Ok(ExecutionTarget::StoredContractByName { name: nm, entry_point: ep });
        } else {
            return Err(
                CliError::MissingRequiredField {
                    context: TargetLabel::Session,
                    field: FieldLabel::EntryPoint,
                },
            );
        }
    }
    if let Some(h) = o.package_hash {
        return resolve_package(TargetLabel::Session, true, h, o.entry_point, o.version);
    }
    if let Some(nm) = o.package_name {
        return resolve_package(TargetLabel::Session, false, nm, o.entry_point, o.version);
    }
    Err(CliError::MissingRequiredField { context: TargetLabel::Session, field: FieldLabel::Target })
}

/// Resolves the payment source options into one execution target.
/// Exactly one source field must be present; the standard-payment
/// amount has the highest priority.  The result is never `Transfer`.
pub fn resolve_payment(o: PaymentOptions) -> (r: Result<ExecutionTarget, CliError>)
    ensures
        r matches Ok(t) ==> resolve_payment_spec(o@) == Ok::<ExecutionTargetModel, CliErrorModel>(
            t@,
        ) && !(t@ matches ExecutionTargetModel::Transfer),
        r matches Err(e) ==> resolve_payment_spec(o@) == Err::<
            ExecutionTargetModel,
            CliErrorModel,
        >(e@),
{
    let mut fields: Vec<FieldLabel> = Vec::new();
    if o.amount.is_some() {
        fields.push(FieldLabel::Amount);
    }
    if o.path.is_some() {
        fields.push(FieldLabel::ModulePath);
    }
    if o.hash.is_some() {
        fields.push(FieldLabel::ContractHash);
    }
    if o.name.is_some() {
        fields.push(FieldLabel::ContractName);
    }
    if o.package_hash.is_some() {
        fields.push(FieldLabel::PackageHash);
    }
    if o.package_name.is_some() {
        fields.push(FieldLabel::PackageName);
    }
    proof {
        assert(fields@ =~= payment_present_fields(o@));
    }
    if fields.len() == 0 {
        return Err(
            CliError::MissingRequiredField {
                context: TargetLabel::Payment,
                field: FieldLabel::Target,
            },
        );
    }
    if fields.len() >= 2 {
        return Err(CliError::ConflictingArguments { context: TargetLabel::Payment, fields });
    }
    if let Some(a) = o.amount {
        if !ep_absent(&o.entry_point) {
            let conflict: Vec<FieldLabel> = vec![FieldLabel::Amount, FieldLabel::EntryPoint];
            proof {
                assert(conflict@ =~= seq![FieldLabel::Amount, FieldLabel::EntryPoint]);
            }
            return Err(
                CliError::ConflictingArguments { context: TargetLabel::Payment, fields: conflict },
            );
        }
        return match crate::decimal::parse_big_digits(a.as_slice(), 64) {
            Some(..) => Ok(ExecutionTarget::StandardPayment { amount: a }),
            None => Err(CliError::InvalidNumber { tag: BaseTag::U512, value: a }),
        };
    }
    if let Some(p) = o.path {
        if ep_absent(&o.entry_point) {
            return Ok(ExecutionTarget::InlineCode { wasm_path: p });
        } else {
            let conflict: Vec<FieldLabel> = vec![FieldLabel::ModulePath, FieldLabel::EntryPoint];
            proof {
                assert(conflict@ =~= seq![FieldLabel::ModulePath, FieldLabel::EntryPoint]);
            }
            return Err(
                CliError::ConflictingArguments { context: TargetLabel::Payment, fields: conflict },
            );
        }
    }
    if let Some(h) = o.hash {
        if ep_present(&o.entry_point) {
            let ep = match o.entry_point {
                Some(e) => e,
                None => {
                    return Err(
                        CliError::MissingRequiredField {
                            context: TargetLabel::Payment,
                            field: FieldLabel::EntryPoint,
                        },
                    );
                },
            };
            return Ok(ExecutionTarget::StoredContractByHash { hash: h, entry_point: ep });
        } else {
            return Err(
                CliError::MissingRequiredField {
                    context: TargetLabel::Payment,
                    field: FieldLabel::EntryPoint,
                },
            );
        }
    }
    if let Some(nm) = o.name {
        if ep_present(&o.entry_point) {
            let ep = match o.entry_point {
                Some(e) => e,
                None => {
                    return Err(
                        CliError::MissingRequiredField {
                            context: TargetLabel::Payment,
                            field: FieldLabel::EntryPoint,
                        },
                    );
                },
            };
            return Ok(ExecutionTarget::StoredContractByName { name: nm, entry_point: ep });
        } else {
            return Err(
                CliError::MissingRequiredField {
                    context: TargetLabel::Payment,
                    field: FieldLabel::EntryPoint,
                },
            );
        }
    }
    if let Some(h) = o.package_hash {
        return resolve_package(TargetLabel::Payment, true, h, o.entry_point, o.version);
    }
    if let Some(nm) = o.package_name {
        return resolve_package(TargetLabel::Payment, false, nm, o.entry_point, o.version);
    }
    Err(CliError::MissingRequiredField { context: TargetLabel::Payment, field: FieldLabel::Target })
}

/// Are the dependent fields of the single present session source field
/// in order: entry point absent or empty for transfer and inline code,
/// present for the stored variants, and a valid version for packages?
pub open spec fn session_deps_ok(o: SessionOptionsModel) -> bool {
    if o.transfer || o.path is Some {
        entry_point_absent(o.entry_point)
    } else if o.hash is Some || o.name is Some {
        has_entry_point(o.entry_point)
    } else {
        has_entry_point(o.entry_point) && version_spec(o.version) is Ok
    }
}

/// Does the target correspond to the single present session source
/// field?
pub open spec fn session_corresponds(o: SessionOptionsModel, t: ExecutionTargetModel) -> bool {
    if o.transfer {
        t == ExecutionTargetModel::Transfer
    } else {
        match o.path {
            Some(p) => t == (ExecutionTargetModel::InlineCode { wasm_path: p }),
            None => match o.hash {
                Some(h) => t == (ExecutionTargetModel::StoredContractByHash {
                    hash: h,
                    entry_point: o.entry_point->Some_0,
                }),
                None => match o.name {
                    Some(nm) => t == (ExecutionTargetModel::StoredContractByName {
                        name: nm,
                        entry_point: o.entry_point->Some_0,
                    }),
                    None => match o.package_hash {
                        Some(h) => t == (ExecutionTargetModel::StoredPackageByHash {
                            hash: h,
                            version: version_spec(o.version)->Ok_0,
                            entry_point: o.entry_point->Some_0,
                        }),
                        None => match o.package_name {
                            Some(nm) => t == (ExecutionTargetModel::StoredPackageByName {
                                name: nm,
                                version: version_spec(o.version)->Ok_0,
                                entry_point: o.entry_point->Some_0,
                            }),
                            None => false,
                        },
                    },
                },
            },
        }
    }
}

/// The exclusivity invariant for session resolution: with no source
/// field present it fails with its own error; with two or more present
/// it fails with `ConflictingArguments` carrying the present labels in
/// priority order; with exactly one present, and that field's dependent
/// fields in order, it succeeds with the corresponding variant.
pub proof fn lemma_session_exclusivity(o: SessionOptionsModel)
    ensures
        session_present_fields(o).len() == 0 ==> resolve_session_spec(o) == Err::<
            ExecutionTargetModel,
            CliErrorModel,
        >(
            CliErrorModel::MissingRequiredField {
                context: TargetLabel::Session,
                field: FieldLabel::Target,
            },
        ),
        session_present_fields(o).len() >= 2 ==> resolve_session_spec(o) == Err::<
            ExecutionTargetModel,
            CliErrorModel,
        >(
            CliErrorModel::ConflictingArguments {
                context: TargetLabel::Session,
                fields: session_present_fields(o),
            },
        ),
        session_present_fields(o).len() == 1 && session_deps_ok(o) ==> (match resolve_session_spec(
            o,
        ) {
            Ok(t) => session_corresponds(o, t),
            Err(..) => false,
        }),
{
}

/// Are the dependent fields of the single present payment source field
/// in order?  For the standard payment: an absent or empty entry point
/// and a well-formed amount.
pub open spec fn payment_deps_ok(o: PaymentOptionsModel) -> bool {
    match o.amount {
        Some(a) => entry_point_absent(o.entry_point) && amount_ok(a),
        None => if o.path is Some {
            entry_point_absent(o.entry_point)
        } else if o.hash is Some || o.name is Some {
            has_entry_point(o.entry_point)
        } else {
            has_entry_point(o.entry_point) && version_spec(o.version) is Ok
        },
    }
}

/// Does the target correspond to the single present payment source
/// field?
pub open spec fn payment_corresponds(o: PaymentOptionsModel, t: ExecutionTargetModel) -> bool {
    match o.amount {
        Some(a) => t == (ExecutionTargetModel::StandardPayment { amount: a }),
        None => match o.path {
            Some(p) => t == (ExecutionTargetModel::InlineCode { wasm_path: p }),
            None => match o.hash {
                Some(h) => t == (ExecutionTargetModel::StoredContractByHash {
                    hash: h,
                    entry_point: o.entry_point->Some_0,
                }),
                None => match o.name {
                    Some(nm) => t == (ExecutionTargetModel::StoredContractByName {
                        name: nm,
                        entry_point: o.entry_point->Some_0,
                    }),
                    None => match o.package_hash {
                        Some(h) => t == (ExecutionTargetModel::StoredPackageByHash {
                            hash: h,
                            version: version_spec(o.version)->Ok_0,
                            entry_point: o.entry_point->Some_0,
                        }),
                        None => match o.package_name {
                            Some(nm) => t == (ExecutionTargetModel::StoredPackageByName {
                                name: nm,
                                version: version_spec(o.version)->Ok_0,
                                entry_point: o.entry_point->Some_0,
                            }),
                            None => false,
                        },
                    },
                },
            },
        },
    }
}

/// The exclusivity invariant for payment resolution, as for the
/// session.
pub proof fn lemma_payment_exclusivity(o: PaymentOptionsModel)
    ensures
        payment_present_fields(o).len() == 0 ==> resolve_payment_spec(o) == Err::<
            ExecutionTargetModel,
            CliErrorModel,
        >(
            CliErrorModel::MissingRequiredField {
                context: TargetLabel::Payment,
                field: FieldLabel::Target,
            },
        ),
        payment_present_fields(o).len() >= 2 ==> resolve_payment_spec(o) == Err::<
            ExecutionTargetModel,
            CliErrorModel,
        >(
            CliErrorModel::ConflictingArguments {
                context: TargetLabel::Payment,
                fields: payment_present_fields(o),
            },
        ),
        payment_present_fields(o).len() == 1 && payment_deps_ok(o) ==> (match resolve_payment_spec(
            o,
        ) {
            Ok(t) => payment_corresponds(o, t),
            Err(..) => false,
        }),
{
}

} // verus!
