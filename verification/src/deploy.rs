//! The deploy parameter assembler.
//!
//! Combines the two resolved execution targets, the typed arguments
//! parsed from the raw session and payment argument strings, and the
//! pass-through deploy metadata into one immutable parameter set.
//! Argument parsing fails fast: the first malformed argument (session
//! arguments first, then payment arguments) is reported and nothing is
//! built.  Argument order is preserved exactly: the i-th typed argument
//! comes from the i-th raw string.
use vstd::prelude::*;

use crate::args::{parse_arg, parse_arg_spec, typed_arg_wf, TypedArg, TypedArgModel};
use crate::errors::{CliError, CliErrorModel};
use crate::targets::{
    resolve_payment,
    resolve_payment_spec,
    resolve_session,
    resolve_session_spec,
    ExecutionTarget,
    ExecutionTargetModel,
    PaymentOptions,
    SessionOptions,
};

verus! {

/// The pass-through metadata of a deploy: read here, interpreted by the
/// deploy-building collaborator.
#[derive(Clone, Debug, PartialEq, Eq)]
pub struct DeployMetadata {
    /// RFC3339-like timestamp text; empty means "now".
    pub timestamp: Vec<u8>,
    /// Time-to-live duration text.
    pub ttl: Vec<u8>,
    /// Name of the chain the deploy is meant for.
    pub chain_name: Vec<u8>,
    /// Hex public key of the account the session runs under; empty means
    /// the signing key's account.
    pub session_account: Vec<u8>,
}

/// Mathematical model of [`DeployMetadata`].
pub struct DeployMetadataModel {
    pub timestamp: Seq<u8>,
    pub ttl: Seq<u8>,
    pub chain_name: Seq<u8>,
    pub session_account: Seq<u8>,
}

impl View for DeployMetadata {
    type V = DeployMetadataModel;

    open spec fn view(&self) -> DeployMetadataModel {
        DeployMetadataModel {
            timestamp: self.timestamp@,
            ttl: self.ttl@,
            chain_name: self.chain_name@,
            session_account: self.session_account@,
        }
    }
}

/// The complete, immutable parameter set a deploy is built from.
#[derive(Clone, Debug, PartialEq, Eq)]
pub struct DeployCreationParams {
    pub session: ExecutionTarget,
    pub session_args: Vec<TypedArg>,
    pub payment: ExecutionTarget,
    pub payment_args: Vec<TypedArg>,
    pub metadata: DeployMetadata,
}

/// Mathematical model of [`DeployCreationParams`].
pub struct DeployCreationParamsModel {
    pub session: ExecutionTargetModel,
    pub session_args: Seq<TypedArgModel>,
    pub payment: ExecutionTargetModel,
    pub payment_args: Seq<TypedArgModel>,
    pub metadata: DeployMetadataModel,
}

impl View for DeployCreationParams {
    type V = DeployCreationParamsModel;

    open spec fn view(&self) -> DeployCreationParamsModel {
        DeployCreationParamsModel {
            session: self.session@,
            session_args: self.session_args@.map_values(|a: TypedArg| a@),
            payment: self.payment@,
            payment_args: self.payment_args@.map_values(|a: TypedArg| a@),
            metadata: self.metadata@,
        }
    }
}

/// The views of a sequence of byte vectors.
pub open spec fn views_of(s: Seq<Vec<u8>>) -> Seq<Seq<u8>> {
    s.map_values(|v: Vec<u8>| v@)
}

/// A deploy holds exactly one session target and one payment target;
/// `StandardPayment` is only a payment, `Transfer` only a session.
pub open spec fn params_wf(p: DeployCreationParamsModel) -> bool {
    &&& !(p.session matches ExecutionTargetModel::StandardPayment { .. })
    &&& !(p.payment matches ExecutionTargetModel::Transfer)
    &&& forall|i: int| 0 <= i < p.session_args.len() ==> typed_arg_wf(#[trigger] p.session_args[i])
    &&& forall|i: int| 0 <= i < p.payment_args.len() ==> typed_arg_wf(#[trigger] p.payment_args[i])
}

/// What parsing a list of raw arguments yields: the typed arguments in
/// input order, or the error of the first raw argument that fails.
pub open spec fn parse_args_spec(raws: Seq<Seq<u8>>) -> Result<Seq<TypedArgModel>, CliErrorModel>
    decreases raws.len(),
{
    if raws.len() == 0 {
        Ok(Seq::empty())
    } else {
        match parse_arg_spec(raws[0]) {
            Err(e) => Err(e),
            Ok(a) => match parse_args_spec(raws.skip(1)) {
                Err(e) => Err(e),
                Ok(rest) => Ok(seq![a] + rest),
            },
        }
    }
}

/// Order preservation: a successfully parsed argument list has exactly
/// one typed argument per raw string, in the same order — the i-th
/// output is the parse of the i-th input, never re-sorted.
pub proof fn lemma_parse_args_order(raws: Seq<Seq<u8>>)
    ensures
        parse_args_spec(raws) matches Ok(models) ==> models.len() == raws.len() && forall|i: int|
            0 <= i < raws.len() ==> parse_arg_spec(raws[i]) == Ok::<TypedArgModel, CliErrorModel>(
                #[trigger] models[i],
            ),
    decreases raws.len(),
{
    if raws.len() > 0 {
        lemma_parse_args_order(raws.skip(1));
        match parse_args_spec(raws) {
            Ok(models) => {
                match parse_args_spec(raws.skip(1)) {
                    Ok(rest) => {
                        assert(forall|i: int|
                            1 <= i < raws.len() ==> raws.skip(1)[i - 1] == raws[i] && models[i]
                                == rest[i - 1]);
                    },
                    Err(..) => {},
                }
            },
            Err(..) => {},
        }
    }
}

/// A parse failure is the failure of the first raw argument that does
/// not parse: everything before it parses.
pub proof fn lemma_parse_args_first_error(raws: Seq<Seq<u8>>)
    ensures
        parse_args_spec(raws) matches Err(e) ==> exists|k: int|
            0 <= k < raws.len() && parse_arg_spec(#[trigger] raws[k]) == Err::<
                TypedArgModel,
                CliErrorModel,
            >(e) && (forall|j: int| 0 <= j < k ==> parse_arg_spec(#[trigger] raws[j]) is Ok),
    decreases raws.len(),
{
    if raws.len() > 0 {
        lemma_parse_args_first_error(raws.skip(1));
        match parse_args_spec(raws) {
            Err(e) => {
                match parse_arg_spec(raws[0]) {
                    Err(..) => {
                        assert(parse_arg_spec(raws[0]) == Err::<TypedArgModel, CliErrorModel>(e));
                        assert(0 <= 0 < raws.len() && parse_arg_spec(raws[0]) == Err::<
                            TypedArgModel,
                            CliErrorModel,
                        >(e) && (forall|j: int|
                            0 <= j < 0 ==> parse_arg_spec(#[trigger] raws[j]) is Ok));
                    },
                    Ok(..) => {
                        let k0 = choose|k: int|
                            0 <= k < raws.skip(1).len() && parse_arg_spec(
                                #[trigger] raws.skip(1)[k],
                            ) == Err::<TypedArgModel, CliErrorModel>(e) && (forall|j: int|
                                0 <= j < k ==> parse_arg_spec(#[trigger] raws.skip(1)[j]) is Ok);
                        assert(raws.skip(1)[k0] == raws[k0 + 1]);
                        assert(forall|j: int|
                            1 <= j < k0 + 1 ==> raws[j] == raws.skip(1)[j - 1] && parse_arg_spec(
                                raws.skip(1)[j - 1],
                            ) is Ok);
                        assert(0 <= k0 + 1 < raws.len() && parse_arg_spec(raws[k0 + 1]) == Err::<
                            TypedArgModel,
                            CliErrorModel,
                        >(e) && (forall|j: int|
                            0 <= j < k0 + 1 ==> parse_arg_spec(#[trigger] raws[j]) is Ok));
                    },
                }
            },
            Ok(..) => {},
        }
    }
}

/// Parses a list of raw argument strings in order, stopping at the
/// first failure.
pub fn parse_args(raws: &Vec<Vec<u8>>) -> (r: Result<Vec<TypedArg>, CliError>)
    ensures
        r matches Ok(out) ==> parse_args_spec(views_of(raws@)) == Ok::<
            Seq<TypedArgModel>,
            CliErrorModel,
        >(out@.map_values(|a: TypedArg| a@)) && forall|i: int|
            0 <= i < out@.len() ==> typed_arg_wf((#[trigger] out@[i])@),
        r matches Err(e) ==> parse_args_spec(views_of(raws@)) == Err::<
            Seq<TypedArgModel>,
            CliErrorModel,
        >(e@),
{
    let ghost rs = views_of(raws@);
    let mut out: Vec<TypedArg> = Vec::new();
    let n = raws.len();
    let mut i: usize = 0;
    while i < n
        invariant
            n == raws@.len(),
            rs == views_of(raws@),
            i <= n,
            out@.len() == i,
            forall|j: int|
                0 <= j < i ==> parse_arg_spec(rs[j]) == Ok::<TypedArgModel, CliErrorModel>(
                    (#[trigger] out@[j])@,
                ),
            forall|j: int| 0 <= j < i ==> typed_arg_wf((#[trigger] out@[j])@),
        decreases n - i,
    {
        proof {
            assert(rs[i as int] == raws@[i as int]@);
        }
        match parse_arg(raws[i].as_slice()) {
            Ok(a) => {
                out.push(a);
            },
            Err(e) => {
                proof {
                    assert forall|j: int| 0 <= j < i implies parse_arg_spec(
                        #[trigger] rs[j],
                    ) is Ok by {
                        assert(parse_arg_spec(rs[j]) == Ok::<TypedArgModel, CliErrorModel>(
                            out@[j]@,
                        ));
                    }
                    lemma_parse_args_prefix_error(rs, i as int, e@);
                }
                return Err(e);
            },
        }
        i += 1;
    }
    proof {
        lemma_parse_args_all_ok(rs, out@.map_values(|a: TypedArg| a@));
    }
    Ok(out)
}

/// If every raw argument parses to the matching model, the list parse
/// succeeds with exactly those models.
proof fn lemma_parse_args_all_ok(raws: Seq<Seq<u8>>, models: Seq<TypedArgModel>)
    requires
        models.len() == raws.len(),
        forall|j: int|
            0 <= j < raws.len() ==> parse_arg_spec(#[trigger] raws[j]) == Ok::<
                TypedArgModel,
                CliErrorModel,
            >(models[j]),
    ensures
        parse_args_spec(raws) == Ok::<Seq<TypedArgModel>, CliErrorModel>(models),
    decreases raws.len(),
{
    if raws.len() == 0 {
        assert(models =~= Seq::<TypedArgModel>::empty());
    } else {
        assert(forall|j: int|
            0 <= j < raws.skip(1).len() ==> raws.skip(1)[j] == raws[j + 1] && models.skip(1)[j]
                == models[j + 1]);
        lemma_parse_args_all_ok(raws.skip(1), models.skip(1));
        assert(models =~= seq![models[0]] + models.skip(1));
    }
}

/// If the first `k` raw arguments parse and the `k`-th fails with `e`,
/// the list parse fails with `e`.
proof fn lemma_parse_args_prefix_error(raws: Seq<Seq<u8>>, k: int, e: CliErrorModel)
    requires
        0 <= k < raws.len(),
        forall|j: int| 0 <= j < k ==> parse_arg_spec(#[trigger] raws[j]) is Ok,
        parse_arg_spec(raws[k]) == Err::<TypedArgModel, CliErrorModel>(e),
    ensures
        parse_args_spec(raws) == Err::<Seq<TypedArgModel>, CliErrorModel>(e),
    decreases raws.len(),
{
    if k > 0 {
        assert(forall|j: int|
            0 <= j < k - 1 ==> raws.skip(1)[j] == raws[j + 1] && parse_arg_spec(raws[j + 1]) is Ok);
        assert(raws.skip(1)[k - 1] == raws[k]);
        lemma_parse_args_prefix_error(raws.skip(1), k - 1, e);
    }
}

/// What assembling yields: both argument lists parsed in order (session
/// first), combined with the given targets and metadata.
pub open spec fn assemble_spec(
    session: ExecutionTargetModel,
    session_args: Seq<Seq<u8>>,
    payment: ExecutionTargetModel,
    payment_args: Seq<Seq<u8>>,
    metadata: DeployMetadataModel,
) -> Result<DeployCreationParamsModel, CliErrorModel> {
    match parse_args_spec(session_args) {
        Err(e) => Err(e),
        Ok(sa) => match parse_args_spec(payment_args) {
            Err(e) => Err(e),
            Ok(pa) => Ok(
                DeployCreationParamsModel {
                    session,
                    session_args: sa,
                    payment,
                    payment_args: pa,
                    metadata,
                },
            ),
        },
    }
}

/// Assembles the deploy parameters from two resolved targets, the raw
/// argument strings, and the metadata.  A pure transformation: no
/// network or file access.  Fails fast on the first malformed argument,
/// session arguments before payment arguments.
pub fn assemble(
    session: ExecutionTarget,
    session_args: &Vec<Vec<u8>>,
    payment: ExecutionTarget,
    payment_args: &Vec<Vec<u8>>,
    metadata: DeployMetadata,
) -> (r: Result<DeployCreationParams, CliError>)
    requires
        !(session@ matches ExecutionTargetModel::StandardPayment { .. }),
        !(payment@ matches ExecutionTargetModel::Transfer),
    ensures
        r matches Ok(p) ==> assemble_spec(
            session@,
            views_of(session_args@),
            payment@,
            views_of(payment_args@),
            metadata@,
        ) == Ok::<DeployCreationParamsModel, CliErrorModel>(p@) && params_wf(p@),
        r matches Err(e) ==> assemble_spec(
            session@,
            views_of(session_args@),
            payment@,
            views_of(payment_args@),
            metadata@,
        ) == Err::<DeployCreationParamsModel, CliErrorModel>(e@),
{
    let sa = match parse_args(session_args) {
        Ok(v) => v,
        Err(e) => {
            return Err(e);
        },
    };
    let pa = match parse_args(payment_args) {
        Ok(v) => v,
        Err(e) => {
            return Err(e);
        },
    };
    Ok(
        DeployCreationParams {
            session,
            session_args: sa,
            payment,
            payment_args: pa,
            metadata,
        },
    )
}

/// The put-deploy command: builds and submits a deploy.  Its verified
/// core turns the raw command inputs — target options, argument strings
/// and metadata — into the complete deploy parameter set; reading key
/// files, signing and the node call stay with the callers.
pub struct PutDeploy;

impl PutDeploy {
    /// Resolves both targets and assembles the deploy parameters: the
    /// whole pure pipeline of the command in one call.
    pub fn build_deploy_params(
        session_opts: SessionOptions,
        session_args: &Vec<Vec<u8>>,
        payment_opts: PaymentOptions,
        payment_args: &Vec<Vec<u8>>,
        metadata: DeployMetadata,
    ) -> (r: Result<DeployCreationParams, CliError>)
        ensures
            r matches Ok(p) ==> build_deploy_params_spec(
                session_opts@,
                views_of(session_args@),
                payment_opts@,
                views_of(payment_args@),
                metadata@,
            ) == Ok::<DeployCreationParamsModel, CliErrorModel>(p@) && params_wf(p@),
            r matches Err(e) ==> build_deploy_params_spec(
                session_opts@,
                views_of(session_args@),
                payment_opts@,
                views_of(payment_args@),
                metadata@,
            ) == Err::<DeployCreationParamsModel, CliErrorModel>(e@),
    {
        let session = match resolve_session(session_opts) {
            Ok(t) => t,
            Err(e) => {
                return Err(e);
            },
        };
        let payment = match resolve_payment(payment_opts) {
            Ok(t) => t,
            Err(e) => {
                return Err(e);
            },
        };
        assemble(session, session_args, payment, payment_args, metadata)
    }
}

/// What the put-deploy core yields: session resolution, payment
/// resolution, then assembly, failing at the first step that fails.
pub open spec fn build_deploy_params_spec(
    session_opts: crate::targets::SessionOptionsModel,
    session_args: Seq<Seq<u8>>,
    payment_opts: crate::targets::PaymentOptionsModel,
    payment_args: Seq<Seq<u8>>,
    metadata: DeployMetadataModel,
) -> Result<DeployCreationParamsModel, CliErrorModel> {
    match resolve_session_spec(session_opts) {
        Err(e) => Err(e),
        Ok(session) => match resolve_payment_spec(payment_opts) {
            Err(e) => Err(e),
            Ok(payment) => assemble_spec(session, session_args, payment, payment_args, metadata),
        },
    }
}

} // verus!
