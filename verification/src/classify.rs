//! Classification of a transaction by the marker that one of its outputs
//! carries.

use vstd::prelude::*;
use crate::payload::{
    be_u32_spec, burn_amount_spec, calculate_burn_amount, decode_burn, decode_da, decode_fill,
    is_burn_payload, is_da_payload, is_fill_payload,
};
use crate::script::{extract_op_return_data, script_payload};
use crate::types::{
    CoreLanePatterns, CoreLanePatternsView, MatchingTransaction, MatchingTransactionView,
    Transaction, TransactionData, TransactionDataView, TransactionPattern, TransactionView,
    TxOutput, TxOutputView,
};

verus! {

/// What a payload decodes to in a transaction of `input_count` inputs. The
/// layouts are tried in a fixed order, burn, then data availability, then
/// fill, and the first that fits decides.
pub open spec fn decode_payload_spec(
    payload: Seq<u8>,
    input_count: u64,
    patterns: CoreLanePatternsView,
) -> Option<TransactionDataView> {
    if is_burn_payload(payload, patterns.burn_prefix) {
        Some(
            TransactionDataView::Burn {
                amount: burn_amount_spec(input_count) as u64,
                chain_id: be_u32_spec(payload.subrange(4, 8)) as u32,
                destination_address: payload.subrange(8, 28),
            },
        )
    } else if is_da_payload(payload, patterns.da_prefix) {
        Some(TransactionDataView::DataAvailability { raw_data: payload })
    } else if is_fill_payload(payload, patterns.fill_prefix) {
        Some(TransactionDataView::Fill { raw_data: payload })
    } else {
        None
    }
}

/// What the marker of one output decodes to: nothing where the output is no
/// marker output, or where its payload fits no layout.
pub open spec fn classify_output_spec(
    output: TxOutputView,
    input_count: u64,
    patterns: CoreLanePatternsView,
) -> Option<TransactionDataView> {
    match script_payload(output.script_pubkey) {
        Some(payload) => decode_payload_spec(payload, input_count, patterns),
        None => None,
    }
}

/// What the first output that carries a decodable marker decodes to.
pub open spec fn first_marker_spec(
    outputs: Seq<TxOutputView>,
    input_count: u64,
    patterns: CoreLanePatternsView,
) -> Option<TransactionDataView>
    decreases outputs.len(),
{
    if outputs.len() == 0 {
        None
    } else {
        match classify_output_spec(outputs[0], input_count, patterns) {
            Some(data) => Some(data),
            None => first_marker_spec(outputs.drop_first(), input_count, patterns),
        }
    }
}

/// The match record of a transaction at position `index` under a requested
/// pattern: the class and payload of its first decodable marker, where the
/// pattern accepts that class; nothing otherwise.
pub open spec fn classify_spec(
    tx: TransactionView,
    index: u64,
    patterns: CoreLanePatternsView,
    search_pattern: TransactionPattern,
) -> Option<MatchingTransactionView> {
    match first_marker_spec(tx.outputs, tx.input_count, patterns) {
        Some(data) => if search_pattern.accepts_spec(data.tx_type()) {
            Some(
                MatchingTransactionView {
                    txid: tx.txid,
                    transaction_index: index,
                    tx_type: data.tx_type(),
                    data,
                },
            )
        } else {
            None
        },
        None => None,
    }
}

/// Decodes a payload by the first layout that fits: burn, then data
/// availability, then fill. A payload that fits none is no match.
pub fn decode_payload(
    payload: &[u8],
    input_count: u64,
    patterns: &CoreLanePatterns,
) -> (data: Option<TransactionData>)
    ensures
        match data {
            Some(d) => decode_payload_spec(payload@, input_count, patterns@) == Some(d@),
            None => decode_payload_spec(payload@, input_count, patterns@) is None,
        },
{
    if let Ok(burn) = decode_burn(payload, patterns, calculate_burn_amount(input_count)) {
        return Some(TransactionData::Burn(burn));
    }
    if let Ok(da) = decode_da(payload, patterns) {
        return Some(TransactionData::DataAvailability(da));
    }
    if let Ok(fill) = decode_fill(payload, patterns) {
        return Some(TransactionData::Fill(fill));
    }
    None
}

/// Decodes the marker of one output of a transaction of `input_count`
/// inputs.
pub fn classify_output(
    output: &TxOutput,
    input_count: u64,
    patterns: &CoreLanePatterns,
) -> (data: Option<TransactionData>)
    ensures
        match data {
            Some(d) => classify_output_spec(output@, input_count, patterns@) == Some(d@),
            None => classify_output_spec(output@, input_count, patterns@) is None,
        },
{
    match extract_op_return_data(output.script_pubkey.as_slice()) {
        Some(payload) => decode_payload(payload.as_slice(), input_count, patterns),
        None => None,
    }
}

/// Classifies a transaction: scans its outputs in order, takes the first
/// marker that decodes, and returns the match record where the requested
/// pattern accepts its class.
pub fn check_transaction_patterns(
    tx: &Transaction,
    index: u64,
    patterns: &CoreLanePatterns,
    search_pattern: &TransactionPattern,
) -> (found: Option<MatchingTransaction>)
    ensures
        match found {
            Some(m) => classify_spec(tx@, index, patterns@, *search_pattern) == Some(m@),
            None => classify_spec(tx@, index, patterns@, *search_pattern) is None,
        },
{
    let ghost outputs = tx@.outputs;
    let mut i: usize = 0;
    proof {
        assert(outputs.skip(0) =~= outputs);
    }
    while i < tx.outputs.len()
        invariant
            i <= tx.outputs@.len(),
            outputs == tx@.outputs,
            first_marker_spec(outputs, tx.input_count, patterns@) == first_marker_spec(
                outputs.skip(i as int),
                tx.input_count,
                patterns@,
            ),
        decreases tx.outputs@.len() - i,
    {
        proof {
            assert(outputs.skip(i as int).drop_first() =~= outputs.skip(i + 1));
        }
        match classify_output(&tx.outputs[i], tx.input_count, patterns) {
            Some(data) => {
                let tx_type = data.tx_type();
                if search_pattern.accepts(tx_type) {
                    return Some(
                        MatchingTransaction { txid: tx.txid, transaction_index: index, tx_type, data },
                    );
                } else {
                    return None;
                }
            },
            None => {},
        }
        i += 1;
    }
    None
}

} // verus!
