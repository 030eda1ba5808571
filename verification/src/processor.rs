//! The two strategies: a search that reports every transaction matching a
//! pattern, and pointing, which proves one named transaction with a Merkle
//! inclusion proof.

use vstd::prelude::*;
use crate::classify::{check_transaction_patterns, classify_spec};
use crate::hash::hash_eq;
use crate::merkle::{
    hashes_view, merkle_root_spec, proof_path_spec, proof_positions_spec, MerkleProof,
    MerkleProofView, MerkleTree,
};
use crate::types::{
    default_patterns, BitcoinBlockInput, BitcoinBlockProof, BitcoinBlockProofView, Block,
    BlockView, CoreLanePatterns, CoreLanePatternsView, MatchingTransaction,
    MatchingTransactionView, PointingProof, ProofStrategy, SearchingProof, Transaction,
    TransactionPattern, TransactionView, TxOutput,
};

verus! {

/// Why no proof was produced.
#[derive(Debug, Clone, Copy, PartialEq, Eq, Structural)]
pub enum ProofError {
    /// The bytes are no consensus-encoded block.
    ParseError,
    /// The block holds no transaction with the id pointed to.
    NotFound,
    /// The transaction pointed to carries no marker.
    NoPatternMatch,
    /// The transaction pointed to is of another class than expected.
    TypeMismatch,
    /// The tree could not be built over the block, or a proof that was just
    /// generated did not verify against it.
    InternalInvariantViolation,
}

/// `bitcoin::consensus::encode::Error`, the failure of a decoding. Nothing
/// is read from it: any such failure is a parse error.
#[verifier::external_type_specification]
#[verifier::external_body]
pub struct ExConsensusError(bitcoin::consensus::encode::Error);

/// The block that a byte string decodes to, where it is the consensus
/// encoding of a block and nothing more.
pub uninterp spec fn decoded_block(raw: Seq<u8>) -> Option<BlockView>;

/// Calls `bitcoin::consensus::deserialize` for a `bitcoin::Block` and hands
/// the block out as plain values: the header's `block_hash`, and for each
/// transaction its `compute_txid`, the number of its inputs, and the value
/// and script bytes of each output. Trusted: the block is `decoded_block` of
/// the bytes, and the call fails exactly where that is nothing.
#[verifier::external_body]
fn decode_block(raw: &[u8]) -> (result: Result<Block, bitcoin::consensus::encode::Error>)
    ensures
        match result {
            Ok(block) => decoded_block(raw@) == Some(block@),
            Err(_) => decoded_block(raw@) is None,
        },
{
    let parsed: bitcoin::Block = bitcoin::consensus::deserialize(raw)?;
    let block_hash = bitcoin::hashes::Hash::to_byte_array(parsed.block_hash());
    let transactions = parsed.txdata.iter().map(|tx| Transaction {
        txid: bitcoin::hashes::Hash::to_byte_array(tx.compute_txid()),
        input_count: tx.input.len() as u64,
        outputs: tx.output.iter().map(|out| TxOutput {
            value: out.value.to_sat(),
            script_pubkey: out.script_pubkey.to_bytes(),
        }).collect(),
    }).collect();
    Ok(Block { block_hash, transactions })
}

/// The ids of a list of transactions, in order.
pub open spec fn txids_of(txs: Seq<TransactionView>) -> Seq<Seq<u8>> {
    Seq::new(txs.len(), |i: int| txs[i].txid)
}

/// The position of the first transaction with the id `txid`.
pub open spec fn position_of(txs: Seq<TransactionView>, txid: Seq<u8>) -> Option<int>
    decreases txs.len(),
{
    if txs.len() == 0 {
        None
    } else if txs[0].txid == txid {
        Some(0)
    } else {
        match position_of(txs.drop_first(), txid) {
            Some(i) => Some(i + 1),
            None => None,
        }
    }
}

/// The position that `position_of` gives holds the id, and no earlier one
/// does; it gives none only where no transaction holds the id.
pub proof fn lemma_position_of_is_first(txs: Seq<TransactionView>, txid: Seq<u8>)
    ensures
        match position_of(txs, txid) {
            Some(i) => 0 <= i < txs.len() && txs[i].txid == txid && forall|j: int|
                0 <= j < i ==> (#[trigger] txs[j]).txid != txid,
            None => forall|j: int| 0 <= j < txs.len() ==> (#[trigger] txs[j]).txid != txid,
        },
    decreases txs.len(),
{
    if txs.len() > 0 && txs[0].txid != txid {
        let rest = txs.drop_first();
        lemma_position_of_is_first(rest, txid);
        match position_of(rest, txid) {
            Some(i) => {
                assert forall|j: int| 0 <= j < i + 1 implies (#[trigger] txs[j]).txid != txid by {
                    if j > 0 {
                        assert(txs[j] == rest[j - 1]);
                    }
                }
            },
            None => {
                assert forall|j: int| 0 <= j < txs.len() implies (#[trigger] txs[j]).txid
                    != txid by {
                    if j > 0 {
                        assert(txs[j] == rest[j - 1]);
                    }
                }
            },
        }
    }
}

/// The match records of the first `count` transactions, in block order.
pub open spec fn search_matches(
    txs: Seq<TransactionView>,
    count: int,
    patterns: CoreLanePatternsView,
    search_pattern: TransactionPattern,
) -> Seq<MatchingTransactionView>
    decreases count,
{
    if count <= 0 {
        seq![]
    } else {
        let before = search_matches(txs, count - 1, patterns, search_pattern);
        match classify_spec(txs[count - 1], (count - 1) as u64, patterns, search_pattern) {
            Some(m) => before.push(m),
            None => before,
        }
    }
}

/// What a search over a block produces: every transaction that the pattern
/// accepts, in block order, and no Merkle proof.
pub open spec fn searching_spec(
    block: BlockView,
    searching_proof: SearchingProof,
    block_hash: Seq<u8>,
    block_height: u64,
) -> BitcoinBlockProofView {
    let matches = search_matches(
        block.transactions,
        block.transactions.len() as int,
        default_patterns(),
        searching_proof.pattern,
    );
    BitcoinBlockProofView {
        block_hash,
        block_height,
        strategy: ProofStrategy::Searching(searching_proof),
        matching_transactions: matches,
        merkle_proofs: seq![],
        total_transactions: block.transactions.len() as u64,
        matching_count: matches.len() as u64,
    }
}

/// What pointing at a transaction produces. The block is scanned for the
/// id; the position that the caller supplied is not read. The transaction
/// found is classified under the pattern that accepts every class, its class
/// is held against the expected one, and the proof is the one that the tree
/// over all transaction ids of the block gives for the position found.
pub open spec fn pointing_spec(
    block: BlockView,
    pointing_proof: PointingProof,
    block_hash: Seq<u8>,
    block_height: u64,
) -> Result<BitcoinBlockProofView, ProofError> {
    match position_of(block.transactions, pointing_proof.txid@) {
        None => Err(ProofError::NotFound),
        Some(position) => match classify_spec(
            block.transactions[position],
            position as u64,
            default_patterns(),
            TransactionPattern::All,
        ) {
            None => Err(ProofError::NoPatternMatch),
            Some(m) => if m.tx_type != pointing_proof.expected_type {
                Err(ProofError::TypeMismatch)
            } else {
                let leaves = txids_of(block.transactions);
                Ok(
                    BitcoinBlockProofView {
                        block_hash,
                        block_height,
                        strategy: ProofStrategy::Pointing(pointing_proof),
                        matching_transactions: seq![m],
                        merkle_proofs: seq![
                            MerkleProofView {
                                txid: leaves[position],
                                path: proof_path_spec(leaves, position),
                                positions: proof_positions_spec(leaves, position),
                            },
                        ],
                        total_transactions: block.transactions.len() as u64,
                        matching_count: 1,
                    },
                )
            },
        },
    }
}

/// What a strategy produces on a block.
pub open spec fn process_block_spec(
    block: BlockView,
    block_height: u64,
    strategy: ProofStrategy,
) -> Result<BitcoinBlockProofView, ProofError> {
    match strategy {
        ProofStrategy::Searching(searching_proof) => Ok(
            searching_spec(block, searching_proof, block.block_hash, block_height),
        ),
        ProofStrategy::Pointing(pointing_proof) => pointing_spec(
            block,
            pointing_proof,
            block.block_hash,
            block_height,
        ),
    }
}

/// What one invocation produces: a parse failure where the bytes decode to
/// no block, else what the strategy produces on the decoded block.
pub open spec fn process_input_spec(
    raw_block: Seq<u8>,
    block_height: u64,
    strategy: ProofStrategy,
) -> Result<BitcoinBlockProofView, ProofError> {
    match decoded_block(raw_block) {
        None => Err(ProofError::ParseError),
        Some(block) => process_block_spec(block, block_height, strategy),
    }
}

/// Whether an outcome is the one that a specification gives.
pub open spec fn outcome_is(
    result: Result<BitcoinBlockProof, ProofError>,
    expected: Result<BitcoinBlockProofView, ProofError>,
) -> bool {
    match result {
        Ok(proof) => expected == Ok::<BitcoinBlockProofView, ProofError>(proof@),
        Err(e) => expected == Err::<BitcoinBlockProofView, ProofError>(e),
    }
}

/// The position of the first transaction of the block with the id `txid`.
pub fn find_transaction(block: &Block, txid: &[u8; 32]) -> (found: Option<usize>)
    ensures
        match found {
            Some(i) => position_of(block@.transactions, txid@) == Some(i as int) && i
                < block.transactions@.len(),
            None => position_of(block@.transactions, txid@) is None,
        },
{
    let ghost txs = block@.transactions;
    let mut i: usize = 0;
    proof {
        assert(txs.skip(0) =~= txs);
    }
    while i < block.transactions.len()
        invariant
            i <= block.transactions@.len(),
            txs == block@.transactions,
            match position_of(txs.skip(i as int), txid@) {
                Some(k) => position_of(txs, txid@) == Some(k + i),
                None => position_of(txs, txid@) is None,
            },
        decreases block.transactions@.len() - i,
    {
        proof {
            assert(txs.skip(i as int).drop_first() =~= txs.skip(i + 1));
        }
        if hash_eq(&block.transactions[i].txid, txid) {
            return Some(i);
        }
        i += 1;
    }
    None
}

/// The searching strategy: classifies every transaction of the block, in
/// block order, against the requested pattern. No tree is built.
pub fn process_searching_strategy(
    block: &Block,
    searching_proof: &SearchingProof,
    block_hash: &[u8; 32],
    block_height: u64,
) -> (result: Result<BitcoinBlockProof, ProofError>)
    ensures
        result is Ok,
        outcome_is(
            result,
            Ok(searching_spec(block@, *searching_proof, block_hash@, block_height)),
        ),
        result matches Ok(proof) ==> proof@.well_formed(),
{
    let patterns = CoreLanePatterns::default();
    let ghost txs = block@.transactions;
    let mut matching_transactions: Vec<MatchingTransaction> = Vec::new();
    let total = block.transactions.len();
    let mut index: usize = 0;
    while index < total
        invariant
            index <= total,
            total == block.transactions@.len(),
            txs == block@.transactions,
            patterns@ == default_patterns(),
            matching_transactions@.len() <= index,
            Seq::new(matching_transactions@.len(), |i: int| matching_transactions@[i]@)
                == search_matches(txs, index as int, default_patterns(), searching_proof.pattern),
        decreases total - index,
    {
        match check_transaction_patterns(
            &block.transactions[index],
            index as u64,
            &patterns,
            &searching_proof.pattern,
        ) {
            Some(matching_tx) => matching_transactions.push(matching_tx),
            None => {},
        }
        index += 1;
    }
    let matching_count = matching_transactions.len() as u64;
    let proof_record = BitcoinBlockProof {
        block_hash: *block_hash,
        block_height,
        strategy: ProofStrategy::Searching(*searching_proof),
        matching_transactions,
        merkle_proofs: Vec::new(),
        total_transactions: total as u64,
        matching_count,
    };
    assert(proof_record@.merkle_proofs =~= seq![]);
    Ok(proof_record)
}

/// The ids of the transactions of a block, in block order.
pub fn collect_txids(block: &Block) -> (txids: Vec<[u8; 32]>)
    ensures
        txids@.len() == block.transactions@.len(),
        hashes_view(txids@) == txids_of(block@.transactions),
{
    let total = block.transactions.len();
    let mut txids: Vec<[u8; 32]> = Vec::with_capacity(total);
    let mut i: usize = 0;
    while i < total
        invariant
            i <= total,
            total == block.transactions@.len(),
            txids@.len() == i,
            forall|k: int| 0 <= k < i ==> (#[trigger] txids@[k])@ == block.transactions@[k].txid@,
        decreases total - i,
    {
        txids.push(block.transactions[i].txid);
        i += 1;
    }
    txids
}

/// The pointing strategy: scans the block for the transaction with the id
/// pointed to, classifies it, holds its class against the expected one, and
/// proves its place in the tree over all transaction ids of the block. The
/// proof is verified against the tree's root before it is returned.
pub fn process_pointing_strategy(
    block: &Block,
    pointing_proof: &PointingProof,
    block_hash: &[u8; 32],
    block_height: u64,
) -> (result: Result<BitcoinBlockProof, ProofError>)
    ensures
        outcome_is(result, pointing_spec(block@, *pointing_proof, block_hash@, block_height)),
        result matches Err(e) ==> e != ProofError::InternalInvariantViolation,
        result matches Ok(proof) ==> {
            &&& proof@.well_formed()
            &&& proof.merkle_proofs@[0].recomputed_root() == merkle_root_spec(
                txids_of(block@.transactions),
            )
        },
{
    let tx_position = match find_transaction(block, &pointing_proof.txid) {
        Some(position) => position,
        None => {
            return Err(ProofError::NotFound);
        },
    };
    let tx = &block.transactions[tx_position];
    let patterns = CoreLanePatterns::default();
    let matching_tx = match check_transaction_patterns(
        tx,
        tx_position as u64,
        &patterns,
        &TransactionPattern::All,
    ) {
        Some(matching_tx) => matching_tx,
        None => {
            return Err(ProofError::NoPatternMatch);
        },
    };
    if matching_tx.tx_type != pointing_proof.expected_type {
        return Err(ProofError::TypeMismatch);
    }
    let txids = collect_txids(block);
    let merkle_tree = match MerkleTree::build_merkle_tree(txids.as_slice()) {
        Ok(tree) => tree,
        Err(_) => {
            return Err(ProofError::InternalInvariantViolation);
        },
    };
    let merkle_proof = match merkle_tree.generate_proof(tx_position) {
        Ok(proof) => proof,
        Err(_) => {
            return Err(ProofError::InternalInvariantViolation);
        },
    };
    match merkle_proof.verify_proof(&merkle_tree.merkle_root) {
        Ok(true) => {},
        _ => {
            return Err(ProofError::InternalInvariantViolation);
        },
    }
    let mut matching_transactions: Vec<MatchingTransaction> = Vec::new();
    matching_transactions.push(matching_tx);
    let mut merkle_proofs: Vec<MerkleProof> = Vec::new();
    merkle_proofs.push(merkle_proof);
    let proof_record = BitcoinBlockProof {
        block_hash: *block_hash,
        block_height,
        strategy: ProofStrategy::Pointing(*pointing_proof),
        matching_transactions,
        merkle_proofs,
        total_transactions: block.transactions.len() as u64,
        matching_count: 1,
    };
    proof {
        assert(proof_record@.matching_transactions =~= seq![matching_tx@]);
        assert(proof_record@.merkle_proofs =~= seq![merkle_proof@]);
    }
    Ok(proof_record)
}

/// Runs the strategy on a block.
pub fn process_block(
    block: &Block,
    block_height: u64,
    strategy: &ProofStrategy,
) -> (result: Result<BitcoinBlockProof, ProofError>)
    ensures
        outcome_is(result, process_block_spec(block@, block_height, *strategy)),
        result matches Err(e) ==> e != ProofError::InternalInvariantViolation,
        result matches Ok(proof) ==> proof@.well_formed(),
{
    match strategy {
        ProofStrategy::Searching(searching_proof) => process_searching_strategy(
            block,
            searching_proof,
            &block.block_hash,
            block_height,
        ),
        ProofStrategy::Pointing(pointing_proof) => process_pointing_strategy(
            block,
            pointing_proof,
            &block.block_hash,
            block_height,
        ),
    }
}

/// Decodes the raw block and runs the strategy on it. Bytes that are no
/// block end the invocation with a parse failure, before either strategy
/// runs.
pub fn process_bitcoin_block(
    input: &BitcoinBlockInput,
) -> (result: Result<BitcoinBlockProof, ProofError>)
    ensures
        outcome_is(
            result,
            process_input_spec(input.raw_block@, input.block_height, input.strategy),
        ),
        result matches Err(e) ==> e != ProofError::InternalInvariantViolation,
        result matches Ok(proof) ==> proof@.well_formed(),
{
    match decode_block(input.raw_block.as_slice()) {
        Ok(block) => process_block(&block, input.block_height, &input.strategy),
        Err(_) => Err(ProofError::ParseError),
    }
}

} // verus!
