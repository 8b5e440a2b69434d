use base64::engine::general_purpose::STANDARD;
use base64::Engine;
use stellar_xdr::curr::{
    ContractDataDurability, ContractId, LedgerFootprint, LedgerKey, LedgerKeyContractData,
    Limited, Limits, Memo, MuxedAccount, Operation, OperationBody, Preconditions, ScAddress, ScVal,
    ScVec, SequenceNumber, SorobanResources, SorobanTransactionData, SorobanTransactionDataExt,
    Transaction, TransactionEnvelope, TransactionExt, TransactionResult, TransactionResultExt,
    TransactionResultResult, TransactionV1Envelope, Uint256, VecM, WriteXdr,
};
use trident::errors::Severity;
use trident::indexer::parser::invocation_metrics::{
    decode_invocation_metrics, metrics_from, DeclaredResources, PROVENANCE_DECLARED,
};

fn xdr_b64<T: WriteXdr>(val: &T) -> String {
    let mut buf = Vec::new();
    val.write_xdr(&mut Limited::new(&mut buf, Limits::none()))
        .expect("XDR encode");
    STANDARD.encode(buf)
}

fn success_result(fee_charged: i64) -> TransactionResult {
    TransactionResult {
        fee_charged,
        result: TransactionResultResult::TxSuccess(VecM::default()),
        ext: TransactionResultExt::V0,
    }
}

fn failed_result(fee_charged: i64) -> TransactionResult {
    TransactionResult {
        fee_charged,
        result: TransactionResultResult::TxFailed(VecM::default()),
        ext: TransactionResultExt::V0,
    }
}

fn soroban_invoke_transaction(
    instructions: u32,
    disk_read_bytes: u32,
    write_bytes: u32,
    resource_fee: i64,
) -> Transaction {
    let op = Operation {
        source_account: None,
        body: OperationBody::Inflation,
    };

    let resources = SorobanResources {
        footprint: LedgerFootprint {
            read_only: VecM::default(),
            read_write: VecM::default(),
        },
        instructions,
        disk_read_bytes,
        write_bytes,
    };
    let soroban_data = SorobanTransactionData {
        ext: SorobanTransactionDataExt::V0,
        resources,
        resource_fee,
    };

    Transaction {
        source_account: MuxedAccount::Ed25519(Uint256([1u8; 32])),
        fee: 1_000_000,
        seq_num: SequenceNumber(1),
        cond: Preconditions::None,
        memo: Memo::None,
        operations: VecM::try_from(vec![op]).unwrap(),
        ext: TransactionExt::V1(soroban_data),
    }
}

fn envelope_for(tx: Transaction) -> TransactionEnvelope {
    TransactionEnvelope::Tx(TransactionV1Envelope {
        tx,
        signatures: VecM::default(),
    })
}

#[test]
fn successful_soroban_invocation_reports_declared_resources() {
    let tx = soroban_invoke_transaction(5_000_000, 2_048, 512, 12_345);
    let envelope_xdr = xdr_b64(&envelope_for(tx));
    let result_xdr = xdr_b64(&success_result(1_012_345));

    let metrics = decode_invocation_metrics(&envelope_xdr, &result_xdr).expect("decode");

    assert_eq!(metrics.fee_charged, 1_012_345);
    assert_eq!(metrics.resource_fee, Some(12_345));
    assert_eq!(metrics.cpu_instructions, Some(5_000_000));
    assert_eq!(metrics.read_bytes, Some(2_048));
    assert_eq!(metrics.write_bytes, Some(512));
    assert_eq!(metrics.provenance, PROVENANCE_DECLARED);
}

#[test]
fn failed_transaction_still_reports_fee_charged_but_no_resources() {
    let tx = soroban_invoke_transaction(5_000_000, 2_048, 512, 12_345);
    let envelope_xdr = xdr_b64(&envelope_for(tx));
    let result_xdr = xdr_b64(&failed_result(100_000));

    let metrics = decode_invocation_metrics(&envelope_xdr, &result_xdr).expect("decode");

    assert_eq!(metrics.fee_charged, 100_000);
    assert_eq!(metrics.resource_fee, None);
    assert_eq!(metrics.cpu_instructions, None);
    assert_eq!(metrics.read_bytes, None);
    assert_eq!(metrics.write_bytes, None);
}

#[test]
fn non_soroban_v0_extension_reports_fee_only() {
    let mut tx = soroban_invoke_transaction(1, 1, 1, 1);
    tx.ext = TransactionExt::V0;
    let envelope_xdr = xdr_b64(&envelope_for(tx));
    let result_xdr = xdr_b64(&success_result(500));

    let metrics = decode_invocation_metrics(&envelope_xdr, &result_xdr).expect("decode");

    assert_eq!(metrics.fee_charged, 500);
    assert_eq!(metrics.cpu_instructions, None);
}

#[test]
fn malformed_result_xdr_is_a_parse_error() {
    let err = decode_invocation_metrics("AAAA", "not-valid-base64-xdr!!").unwrap_err();
    assert_eq!(err.severity(), Severity::Skip);
}

#[test]
fn declared_resources_are_copied() {
    let metrics = metrics_from(
        9,
        Some(DeclaredResources {
            resource_fee: 1,
            instructions: u32::MAX,
            disk_read_bytes: 3,
            write_bytes: 4,
        }),
    );
    assert_eq!(metrics.cpu_instructions, Some(4_294_967_295));
    assert_eq!(metrics.read_bytes, Some(3));
    assert_eq!(metrics.write_bytes, Some(4));
    assert_eq!(metrics.resource_fee, Some(1));
}

#[test]
fn malformed_envelopes_of_successful_transactions_are_parse_errors() {
    let result_xdr = xdr_b64(&success_result(5));
    let err = decode_invocation_metrics("AAAA", &result_xdr).unwrap_err();
    assert_eq!(err.severity(), Severity::Skip);
}

fn envelope_with_nested_key(levels: u32) -> String {
    let mut key = ScVal::Void;
    for _ in 0..levels {
        key = ScVal::Vec(Some(ScVec(VecM::try_from(vec![key]).unwrap())));
    }
    let mut tx = soroban_invoke_transaction(1, 2, 3, 4);
    if let TransactionExt::V1(data) = &mut tx.ext {
        data.resources.footprint.read_only =
            VecM::try_from(vec![LedgerKey::ContractData(LedgerKeyContractData {
                contract: ScAddress::Contract(ContractId(stellar_xdr::curr::Hash([0; 32]))),
                key,
                durability: ContractDataDurability::Persistent,
            })])
            .unwrap();
    }
    xdr_b64(&envelope_for(tx))
}

#[test]
fn envelopes_may_nest_only_so_deep() {
    let result = xdr_b64(&success_result(500));
    let metrics = decode_invocation_metrics(&envelope_with_nested_key(50), &result).unwrap();
    assert_eq!(metrics.resource_fee, Some(4));
    let err = decode_invocation_metrics(&envelope_with_nested_key(600), &result).unwrap_err();
    assert!(err.to_string().contains("envelopeXdr XDR decode"));
}
