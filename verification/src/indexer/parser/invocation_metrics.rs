//! Fee and declared resources of a transaction, out of what `getTransaction` answers.
//!
//! The fee is what was charged. The resources are the limits that the submitter declared, not
//! what the host measured.
use stellar_xdr::curr::FeeBumpTransactionInnerTx;
use stellar_xdr::curr::Limited;
use stellar_xdr::curr::Limits;
use stellar_xdr::curr::ReadXdr;
use stellar_xdr::curr::TransactionEnvelope;
use stellar_xdr::curr::TransactionExt;
use stellar_xdr::curr::TransactionResult;
use vstd::prelude::*;

use crate::codec::base64_decode;
use crate::codec::base64_decoded;
use crate::errors::ErrorSource;
use crate::errors::TridentError;

verus! {

broadcast use vstd::string::group_string_axioms;

/// Where the resource numbers come from: the budget that the transaction declared.
pub const PROVENANCE_DECLARED: &'static str = "declared_resources";

/// Fee and resources of one transaction.
#[derive(Debug, PartialEq, Eq)]
pub struct InvocationMetrics {
    /// The whole fee that was charged, in stroops.
    pub fee_charged: i64,
    /// The declared part of the fee that is for resources.
    pub resource_fee: Option<i64>,
    pub cpu_instructions: Option<i64>,
    pub read_bytes: Option<i64>,
    pub write_bytes: Option<i64>,
    pub provenance: &'static str,
}

/// What fee and resources of a transaction are.
pub struct MetricsView {
    pub fee_charged: i64,
    pub resource_fee: Option<i64>,
    pub cpu_instructions: Option<i64>,
    pub read_bytes: Option<i64>,
    pub write_bytes: Option<i64>,
    pub provenance: Seq<char>,
}

impl View for InvocationMetrics {
    type V = MetricsView;

    open spec fn view(&self) -> MetricsView {
        MetricsView {
            fee_charged: self.fee_charged,
            resource_fee: self.resource_fee,
            cpu_instructions: self.cpu_instructions,
            read_bytes: self.read_bytes,
            write_bytes: self.write_bytes,
            provenance: self.provenance@,
        }
    }
}

/// The resources that a transaction declares.
#[derive(Debug, Clone, Copy, PartialEq, Eq, Structural)]
pub struct DeclaredResources {
    pub resource_fee: i64,
    pub instructions: u32,
    pub disk_read_bytes: u32,
    pub write_bytes: u32,
}

/// What the XDR of a transaction result reads as: the fee charged and the number of the result
/// code, or the text of the error.
pub uninterp spec fn xdr_tx_result(bytes: Seq<u8>) -> Result<(i64, i32), Seq<char>>;

/// `TransactionResult::read_xdr` of the `stellar_xdr` crate, without limits: the fee charged and
/// the discriminant of the result.
#[verifier::external_body]
fn read_tx_result(bytes: &[u8]) -> (r: Result<(i64, i32), String>)
    ensures
        match r {
            Ok(v) => xdr_tx_result(bytes@) == Ok::<(i64, i32), Seq<char>>(v),
            Err(e) => xdr_tx_result(bytes@) == Err::<(i64, i32), Seq<char>>(e@),
        },
{
    match TransactionResult::read_xdr(&mut Limited::new(bytes, Limits::none())) {
        Ok(v) => Ok((v.fee_charged, v.result.discriminant() as i32)),
        Err(e) => Err(format!("{:#}", anyhow::Error::new(e))),
    }
}

/// How deep the reads of one envelope may nest: as deep as those of the Soroban host itself.
pub const MAX_ENVELOPE_DEPTH: u32 = 500;

/// What the XDR of a transaction envelope declares when the reader may nest `depth` reads: the
/// resources where the transaction, or the one that it raises the fee of, carries them, or the text
/// of the error.
pub uninterp spec fn xdr_tx_resources(bytes: Seq<u8>, depth: nat) -> Result<
    Option<DeclaredResources>,
    Seq<char>,
>;

/// `TransactionEnvelope::read_xdr` of the `stellar_xdr` crate, limited to `depth` nested reads: the
/// Soroban data of the transaction or of the inner one. The oldest kind of envelope has no place
/// for them.
#[verifier::external_body]
fn read_tx_resources(bytes: &[u8], depth: u32) -> (r: Result<Option<DeclaredResources>, String>)
    requires
        depth <= 500,
    ensures
        match r {
            Ok(v) => xdr_tx_resources(bytes@, depth as nat) == Ok::<
                Option<DeclaredResources>,
                Seq<char>,
            >(v),
            Err(e) => xdr_tx_resources(bytes@, depth as nat) == Err::<
                Option<DeclaredResources>,
                Seq<char>,
            >(e@),
        },
{
    let ext = match TransactionEnvelope::read_xdr(&mut Limited::new(bytes, Limits::depth(depth))) {
        Ok(TransactionEnvelope::Tx(v1)) => v1.tx.ext,
        Ok(TransactionEnvelope::TxFeeBump(bump)) => match bump.tx.inner_tx {
            FeeBumpTransactionInnerTx::Tx(inner) => inner.tx.ext,
        },
        Ok(TransactionEnvelope::TxV0(_)) => TransactionExt::V0,
        Err(e) => return Err(format!("{:#}", anyhow::Error::new(e))),
    };
    Ok(match ext {
        TransactionExt::V0 => None,
        TransactionExt::V1(d) => Some(DeclaredResources {
            resource_fee: d.resource_fee, instructions: d.resources.instructions,
            disk_read_bytes: d.resources.disk_read_bytes, write_bytes: d.resources.write_bytes,
        }),
    })
}

/// Whether a result code is one of success: of the transaction itself, or of the one inside a fee
/// bump.
pub open spec fn is_success(code: i32) -> bool {
    code == 0 || code == 1
}

/// Fee and resources, given what the transaction declares.
pub open spec fn metrics_of(fee_charged: i64, resources: Option<DeclaredResources>) -> MetricsView {
    MetricsView {
        fee_charged,
        resource_fee: match resources {
            Some(d) => Some(d.resource_fee),
            None => None,
        },
        cpu_instructions: match resources {
            Some(d) => Some(d.instructions as i64),
            None => None,
        },
        read_bytes: match resources {
            Some(d) => Some(d.disk_read_bytes as i64),
            None => None,
        },
        write_bytes: match resources {
            Some(d) => Some(d.write_bytes as i64),
            None => None,
        },
        provenance: "declared_resources"@,
    }
}

/// Fee and resources, given what the transaction declares.
pub fn metrics_from(fee_charged: i64, resources: Option<DeclaredResources>) -> (r: InvocationMetrics)
    ensures
        r@ == metrics_of(fee_charged, resources),
{
    match resources {
        Some(d) => InvocationMetrics {
            fee_charged,
            resource_fee: Some(d.resource_fee),
            cpu_instructions: Some(d.instructions as i64),
            read_bytes: Some(d.disk_read_bytes as i64),
            write_bytes: Some(d.write_bytes as i64),
            provenance: PROVENANCE_DECLARED,
        },
        None => InvocationMetrics {
            fee_charged,
            resource_fee: None,
            cpu_instructions: None,
            read_bytes: None,
            write_bytes: None,
            provenance: PROVENANCE_DECLARED,
        },
    }
}

/// What is decided on a result once it is read: a transaction that did not succeed has its fee
/// alone, and its envelope is not looked at.
pub enum ResultStep {
    /// The metrics are complete.
    Done(InvocationMetrics),
    /// The declared resources are needed, for this fee.
    NeedResources(i64),
}

/// Decides on a result, given the fee charged and the number of its code.
pub fn step_result(fee_charged: i64, code: i32) -> (r: ResultStep)
    ensures
        match r {
            ResultStep::Done(m) => !is_success(code) && m@ == metrics_of(fee_charged, None),
            ResultStep::NeedResources(fee) => is_success(code) && fee == fee_charged,
        },
{
    if code == 0 || code == 1 {
        ResultStep::NeedResources(fee_charged)
    } else {
        ResultStep::Done(metrics_from(fee_charged, None))
    }
}

/// The bytes of a base64 text, or the message of the error.
pub open spec fn field_bytes(b64: Seq<char>, context: Seq<char>) -> Result<Seq<u8>, Seq<char>> {
    match base64_decoded(b64) {
        Ok(bytes) => Ok(bytes),
        Err(e) => Err(context + " base64 decode"@ + ": "@ + e),
    }
}

/// Fee and resources out of the base64 XDR of envelope and result, or the message of the error.
pub open spec fn invocation_metrics(envelope: Seq<char>, result: Seq<char>) -> Result<
    MetricsView,
    Seq<char>,
> {
    match field_bytes(result, "resultXdr"@) {
        Err(e) => Err(e),
        Ok(result_bytes) => match xdr_tx_result(result_bytes) {
            Err(e) => Err("resultXdr"@ + " XDR decode"@ + ": "@ + e),
            Ok((fee, code)) => if !is_success(code) {
                Ok(metrics_of(fee, None))
            } else {
                match field_bytes(envelope, "envelopeXdr"@) {
                    Err(e) => Err(e),
                    Ok(envelope_bytes) => match xdr_tx_resources(
                        envelope_bytes,
                        MAX_ENVELOPE_DEPTH as nat,
                    ) {
                        Err(e) => Err("envelopeXdr"@ + " XDR decode"@ + ": "@ + e),
                        Ok(resources) => Ok(metrics_of(fee, resources)),
                    },
                }
            },
        },
    }
}

fn field_error(context: &str, what: &str, e: String) -> (r: TridentError)
    ensures
        r is ParseError,
        r.cause().text() == context@ + what@ + ": "@ + e@,
{
    let mut text = context.to_owned();
    text.append(what);
    TridentError::parse(ErrorSource::msg(e).context(text))
}

fn decode_field(b64: &str, context: &str) -> (r: Result<Vec<u8>, TridentError>)
    ensures
        match r {
            Ok(bytes) => field_bytes(b64@, context@) == Ok::<Seq<u8>, Seq<char>>(bytes@),
            Err(e) => e is ParseError && field_bytes(b64@, context@) == Err::<
                Seq<u8>,
                Seq<char>,
            >(e.cause().text()),
        },
{
    match base64_decode(b64) {
        Ok(bytes) => Ok(bytes),
        Err(e) => Err(field_error(context, " base64 decode", e)),
    }
}

/// Decodes fee and resources out of the base64 XDR of envelope and result.
pub fn decode_invocation_metrics(envelope_xdr_b64: &str, result_xdr_b64: &str) -> (r: Result<
    InvocationMetrics,
    TridentError,
>)
    ensures
        match r {
            Ok(m) => invocation_metrics(envelope_xdr_b64@, result_xdr_b64@) == Ok::<
                MetricsView,
                Seq<char>,
            >(m@),
            Err(e) => e is ParseError && invocation_metrics(envelope_xdr_b64@, result_xdr_b64@)
                == Err::<MetricsView, Seq<char>>(e.cause().text()),
        },
{
    let result_bytes = match decode_field(result_xdr_b64, "resultXdr") {
        Ok(bytes) => bytes,
        Err(e) => return Err(e),
    };
    let (charged, code) = match read_tx_result(&result_bytes) {
        Ok(v) => v,
        Err(e) => return Err(field_error("resultXdr", " XDR decode", e)),
    };
    let fee = match step_result(charged, code) {
        ResultStep::Done(m) => return Ok(m),
        ResultStep::NeedResources(fee) => fee,
    };
    let envelope_bytes = match decode_field(envelope_xdr_b64, "envelopeXdr") {
        Ok(bytes) => bytes,
        Err(e) => return Err(e),
    };
    match read_tx_resources(&envelope_bytes, MAX_ENVELOPE_DEPTH) {
        Ok(resources) => Ok(metrics_from(fee, resources)),
        Err(e) => Err(field_error("envelopeXdr", " XDR decode", e)),
    }
}

/// Of a transaction that succeeded, alone or inside a fee bump, the metrics are the fee that was
/// charged and the resources that it declares, each under its own name. Of one that failed they are
/// the fee alone, whatever the envelope holds.
pub proof fn metrics_are_the_fee_and_what_was_declared(
    envelope: Seq<char>,
    result: Seq<char>,
    result_bytes: Seq<u8>,
    envelope_bytes: Seq<u8>,
    fee: i64,
    code: i32,
    declared: DeclaredResources,
)
    requires
        base64_decoded(result) == Ok::<Seq<u8>, Seq<char>>(result_bytes),
        xdr_tx_result(result_bytes) == Ok::<(i64, i32), Seq<char>>((fee, code)),
    ensures
        code != 0 && code != 1 ==> invocation_metrics(envelope, result) == Ok::<
            MetricsView,
            Seq<char>,
        >(
            MetricsView {
                fee_charged: fee,
                resource_fee: None,
                cpu_instructions: None,
                read_bytes: None,
                write_bytes: None,
                provenance: "declared_resources"@,
            },
        ),
        (code == 0 || code == 1) && base64_decoded(envelope) == Ok::<Seq<u8>, Seq<char>>(
            envelope_bytes,
        ) && xdr_tx_resources(envelope_bytes, 500) == Ok::<Option<DeclaredResources>, Seq<char>>(
            Some(declared),
        ) ==> {
            let m = invocation_metrics(envelope, result);
            &&& m is Ok
            &&& m->Ok_0.fee_charged == fee
            &&& m->Ok_0.resource_fee == Some(declared.resource_fee)
            &&& m->Ok_0.cpu_instructions is Some
            &&& m->Ok_0.cpu_instructions->0 == declared.instructions
            &&& m->Ok_0.read_bytes is Some
            &&& m->Ok_0.read_bytes->0 == declared.disk_read_bytes
            &&& m->Ok_0.write_bytes is Some
            &&& m->Ok_0.write_bytes->0 == declared.write_bytes
            &&& m->Ok_0.provenance == "declared_resources"@
        },
        (code == 0 || code == 1) && base64_decoded(envelope) == Ok::<Seq<u8>, Seq<char>>(
            envelope_bytes,
        ) && xdr_tx_resources(envelope_bytes, 500) == Ok::<Option<DeclaredResources>, Seq<char>>(
            None,
        ) ==> {
            let m = invocation_metrics(envelope, result);
            &&& m is Ok
            &&& m->Ok_0.fee_charged == fee
            &&& m->Ok_0.resource_fee is None
            &&& m->Ok_0.cpu_instructions is None
            &&& m->Ok_0.read_bytes is None
            &&& m->Ok_0.write_bytes is None
            &&& m->Ok_0.provenance == "declared_resources"@
        },
{
}

/// What cannot be read is refused under the name of its field, the result first.
pub proof fn unreadable_fields_are_named(
    envelope: Seq<char>,
    result: Seq<char>,
    bytes: Seq<u8>,
    fee: i64,
    e: Seq<char>,
)
    ensures
        base64_decoded(result) == Err::<Seq<u8>, Seq<char>>(e) ==> invocation_metrics(
            envelope,
            result,
        ) == Err::<MetricsView, Seq<char>>("resultXdr"@ + " base64 decode"@ + ": "@ + e),
        base64_decoded(result) == Ok::<Seq<u8>, Seq<char>>(bytes) && xdr_tx_result(bytes) == Err::<
            (i64, i32),
            Seq<char>,
        >(e) ==> invocation_metrics(envelope, result) == Err::<MetricsView, Seq<char>>(
            "resultXdr"@ + " XDR decode"@ + ": "@ + e,
        ),
        base64_decoded(result) == Ok::<Seq<u8>, Seq<char>>(bytes) && xdr_tx_result(bytes) == Ok::<
            (i64, i32),
            Seq<char>,
        >((fee, 0)) && base64_decoded(envelope) == Err::<Seq<u8>, Seq<char>>(e)
            ==> invocation_metrics(envelope, result) == Err::<MetricsView, Seq<char>>(
            "envelopeXdr"@ + " base64 decode"@ + ": "@ + e,
        ),
{
}

/// Metrics are seen as their own fields.
pub proof fn metrics_show_their_fields(m: InvocationMetrics)
    ensures
        m@.fee_charged == m.fee_charged,
        m@.resource_fee == m.resource_fee,
        m@.cpu_instructions == m.cpu_instructions,
        m@.read_bytes == m.read_bytes,
        m@.write_bytes == m.write_bytes,
        m@.provenance == m.provenance@,
{
}

/// A transaction that succeeded still needs its resources, for the fee that was charged; one that
/// failed is done with the fee alone.
pub proof fn failed_transactions_are_done(fee: i64, code: i32, r: ResultStep)
    requires
        call_ensures(step_result, (fee, code), r),
    ensures
        code == 0 || code == 1 ==> r == ResultStep::NeedResources(fee),
        code != 0 && code != 1 ==> r is Done && r->Done_0.fee_charged == fee
            && r->Done_0.resource_fee is None && r->Done_0.cpu_instructions is None
            && r->Done_0.read_bytes is None && r->Done_0.write_bytes is None,
{
}

/// What a transaction declares stands under its own name in the metrics.
pub proof fn declared_resources_keep_their_names(
    fee: i64,
    d: DeclaredResources,
    m: InvocationMetrics,
)
    requires
        call_ensures(metrics_from, (fee, Some(d)), m),
    ensures
        m.fee_charged == fee,
        m.resource_fee == Some(d.resource_fee),
        m.cpu_instructions is Some && m.cpu_instructions->0 == d.instructions,
        m.read_bytes is Some && m.read_bytes->0 == d.disk_read_bytes,
        m.write_bytes is Some && m.write_bytes->0 == d.write_bytes,
        m.provenance@ == "declared_resources"@,
{
}

/// An envelope that is no transaction is refused under its name.
pub proof fn unreadable_envelopes_are_named(
    envelope: Seq<char>,
    result: Seq<char>,
    result_bytes: Seq<u8>,
    envelope_bytes: Seq<u8>,
    fee: i64,
    code: i32,
    e: Seq<char>,
)
    requires
        base64_decoded(result) == Ok::<Seq<u8>, Seq<char>>(result_bytes),
        xdr_tx_result(result_bytes) == Ok::<(i64, i32), Seq<char>>((fee, code)),
        code == 0 || code == 1,
        base64_decoded(envelope) == Ok::<Seq<u8>, Seq<char>>(envelope_bytes),
        xdr_tx_resources(envelope_bytes, 500) == Err::<Option<DeclaredResources>, Seq<char>>(e),
    ensures
        invocation_metrics(envelope, result) == Err::<MetricsView, Seq<char>>(
            "envelopeXdr"@ + " XDR decode"@ + ": "@ + e,
        ),
{
}

} // verus!
