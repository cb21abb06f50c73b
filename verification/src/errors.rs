//! Error taxonomy for argument parsing, value encoding and target resolution.
//!
//! Every fallible operation in this crate reports one of these kinds; the
//! contracts of the parsing and resolution functions state exactly which
//! inputs produce which kind.
use vstd::prelude::*;

use crate::tags::BaseTag;

verus! {

/// Whether an error arose while resolving the session target or the payment
/// target of a deploy.
#[derive(Clone, Copy, Debug, PartialEq, Eq, Structural)]
pub enum TargetLabel {
    Session,
    Payment,
}

/// Names the option field of a session or payment target that an error is
/// about.
#[derive(Clone, Copy, Debug, PartialEq, Eq, Structural)]
pub enum FieldLabel {
    /// The transfer flag (session only).
    Transfer,
    /// The path to a compiled Wasm module.
    ModulePath,
    /// The hash of a stored contract.
    ContractHash,
    /// The name of a stored contract.
    ContractName,
    /// The hash of a stored package.
    PackageHash,
    /// The name of a stored package.
    PackageName,
    /// The standard-payment amount (payment only).
    Amount,
    /// The entry point of a stored contract or package.
    EntryPoint,
    /// The version of a stored package.
    Version,
    /// The choice of execution target as a whole (reported when no
    /// source field is present).
    Target,
}

/// An error raised while parsing, encoding or resolving.  Each variant
/// carries the offending text or the labels of the fields involved, enough
/// to print one actionable diagnostic line.
#[derive(Clone, Debug, PartialEq, Eq)]
pub enum CliError {
    /// The tokenizer could not split an argument into name, type and value.
    MalformedArgument { arg: Vec<u8> },
    /// The type tag of an argument is not in the closed supported set.
    UnknownType { tag: Vec<u8> },
    /// A numeric (or boolean) literal was unparsable, or out of range for
    /// the declared width.
    InvalidNumber { tag: BaseTag, value: Vec<u8> },
    /// A formatted-string body (key, account hash, uref, public key) failed
    /// its sub-grammar, or a unit value was not empty, or `null` was given
    /// for a non-optional type.
    InvalidFormattedString { tag: BaseTag, value: Vec<u8> },
    /// More than one mutually exclusive target field was present.
    ConflictingArguments { context: TargetLabel, fields: Vec<FieldLabel> },
    /// A required field was absent: no target field at all, or a missing
    /// entry point for a stored contract or package.
    MissingRequiredField { context: TargetLabel, field: FieldLabel },
    /// The value cannot be binary-encoded: its payload does not fit the
    /// length prefix of the wire format.
    CoreSerialization { tag: BaseTag },
}

/// The mathematical shape of a [`CliError`], used by contracts.
pub enum CliErrorModel {
    MalformedArgument { arg: Seq<u8> },
    UnknownType { tag: Seq<u8> },
    InvalidNumber { tag: BaseTag, value: Seq<u8> },
    InvalidFormattedString { tag: BaseTag, value: Seq<u8> },
    ConflictingArguments { context: TargetLabel, fields: Seq<FieldLabel> },
    MissingRequiredField { context: TargetLabel, field: FieldLabel },
    CoreSerialization { tag: BaseTag },
}

impl View for CliError {
    type V = CliErrorModel;

    open spec fn view(&self) -> CliErrorModel {
        match self {
            CliError::MalformedArgument { arg } => CliErrorModel::MalformedArgument {
                arg: arg@,
            },
            CliError::UnknownType { tag } => CliErrorModel::UnknownType { tag: tag@ },
            CliError::InvalidNumber { tag, value } => CliErrorModel::InvalidNumber {
                tag: *tag,
                value: value@,
            },
            CliError::InvalidFormattedString { tag, value } => CliErrorModel::InvalidFormattedString {
                tag: *tag,
                value: value@,
            },
            CliError::ConflictingArguments { context, fields } => CliErrorModel::ConflictingArguments {
                context: *context,
                fields: fields@,
            },
            CliError::MissingRequiredField { context, field } => CliErrorModel::MissingRequiredField {
                context: *context,
                field: *field,
            },
            CliError::CoreSerialization { tag } => CliErrorModel::CoreSerialization {
                tag: *tag,
            },
        }
    }
}

} // verus!
