//! The records that go in and out: the block as the library reads it, the
//! strategy that a caller asks for, and the proof that comes back.

use vstd::prelude::*;
use crate::merkle::{MerkleProof, MerkleProofView};
use crate::payload::{BurnPayload, DAPayload, FillPayload};

verus! {

/// The class that a marker puts a transaction in.
#[derive(Debug, Clone, Copy, PartialEq, Eq, Structural)]
pub enum TransactionType {
    Burn,
    DataAvailability,
    Fill,
}

/// What a search looks for.
#[derive(Debug, Clone, Copy, PartialEq, Eq, Structural)]
pub enum TransactionPattern {
    /// Burn transactions.
    Burns,
    /// Data-availability postings.
    DataAvailability,
    /// Intent fills.
    Fills,
    /// Any of the three.
    All,
}

impl TransactionPattern {
    /// Whether a transaction of class `tx_type` satisfies the pattern.
    pub open spec fn accepts_spec(self, tx_type: TransactionType) -> bool {
        match self {
            TransactionPattern::Burns => tx_type == TransactionType::Burn,
            TransactionPattern::DataAvailability => tx_type == TransactionType::DataAvailability,
            TransactionPattern::Fills => tx_type == TransactionType::Fill,
            TransactionPattern::All => true,
        }
    }

    /// Whether a transaction of class `tx_type` satisfies the pattern.
    pub fn accepts(&self, tx_type: TransactionType) -> (accepted: bool)
        ensures
            accepted == self.accepts_spec(tx_type),
    {
        match self {
            TransactionPattern::Burns => tx_type == TransactionType::Burn,
            TransactionPattern::DataAvailability => tx_type == TransactionType::DataAvailability,
            TransactionPattern::Fills => tx_type == TransactionType::Fill,
            TransactionPattern::All => true,
        }
    }
}

/// The searching strategy: report every transaction that matches a pattern.
#[derive(Debug, Clone, Copy, PartialEq, Eq, Structural)]
pub struct SearchingProof {
    pub pattern: TransactionPattern,
}

/// The pointing strategy: prove that one named transaction is in the block.
#[derive(Debug, Clone, Copy)]
pub struct PointingProof {
    /// The id of the transaction to prove.
    pub txid: [u8; 32],
    /// Where the caller expects it. A hint: the block is scanned for the id.
    pub tx_position: u32,
    /// The class that the transaction must have.
    pub expected_type: TransactionType,
}

/// The strategy that a caller selects. It is echoed into the proof.
#[derive(Debug, Clone, Copy)]
pub enum ProofStrategy {
    Searching(SearchingProof),
    Pointing(PointingProof),
}

/// What one invocation consumes: a consensus-encoded block, its height and
/// the strategy.
#[derive(Debug, Clone)]
pub struct BitcoinBlockInput {
    pub raw_block: Vec<u8>,
    pub block_height: u64,
    pub strategy: ProofStrategy,
}

/// The marker prefixes that classify a transaction.
#[derive(Debug, Clone)]
pub struct CoreLanePatterns {
    pub burn_prefix: Vec<u8>,
    pub da_prefix: Vec<u8>,
    pub fill_prefix: Vec<u8>,
}

/// The marker prefixes as byte strings.
pub struct CoreLanePatternsView {
    pub burn_prefix: Seq<u8>,
    pub da_prefix: Seq<u8>,
    pub fill_prefix: Seq<u8>,
}

impl View for CoreLanePatterns {
    type V = CoreLanePatternsView;

    open spec fn view(&self) -> CoreLanePatternsView {
        CoreLanePatternsView {
            burn_prefix: self.burn_prefix@,
            da_prefix: self.da_prefix@,
            fill_prefix: self.fill_prefix@,
        }
    }
}

/// The prefixes in use: `BRN1`, `CORE` and `FILL`.
pub open spec fn default_patterns() -> CoreLanePatternsView {
    CoreLanePatternsView {
        burn_prefix: seq![0x42u8, 0x52u8, 0x4eu8, 0x31u8],
        da_prefix: seq![0x43u8, 0x4fu8, 0x52u8, 0x45u8],
        fill_prefix: seq![0x46u8, 0x49u8, 0x4cu8, 0x4cu8],
    }
}

impl Default for CoreLanePatterns {
    fn default() -> (patterns: Self)
        ensures
            patterns@ == default_patterns(),
    {
        let mut burn_prefix: Vec<u8> = Vec::new();
        burn_prefix.push(0x42);
        burn_prefix.push(0x52);
        burn_prefix.push(0x4e);
        burn_prefix.push(0x31);
        let mut da_prefix: Vec<u8> = Vec::new();
        da_prefix.push(0x43);
        da_prefix.push(0x4f);
        da_prefix.push(0x52);
        da_prefix.push(0x45);
        let mut fill_prefix: Vec<u8> = Vec::new();
        fill_prefix.push(0x46);
        fill_prefix.push(0x49);
        fill_prefix.push(0x4c);
        fill_prefix.push(0x4c);
        assert(burn_prefix@ =~= default_patterns().burn_prefix);
        assert(da_prefix@ =~= default_patterns().da_prefix);
        assert(fill_prefix@ =~= default_patterns().fill_prefix);
        CoreLanePatterns { burn_prefix, da_prefix, fill_prefix }
    }
}

/// One output of a transaction: its value in satoshis and its script.
#[derive(Debug, Clone)]
pub struct TxOutput {
    pub value: u64,
    pub script_pubkey: Vec<u8>,
}

/// An output with its script as a byte string.
pub struct TxOutputView {
    pub value: u64,
    pub script_pubkey: Seq<u8>,
}

impl View for TxOutput {
    type V = TxOutputView;

    open spec fn view(&self) -> TxOutputView {
        TxOutputView { value: self.value, script_pubkey: self.script_pubkey@ }
    }
}

/// A transaction as the library reads it: its id, the number of its inputs
/// and its outputs in order.
#[derive(Debug, Clone)]
pub struct Transaction {
    pub txid: [u8; 32],
    pub input_count: u64,
    pub outputs: Vec<TxOutput>,
}

/// A transaction over byte strings.
pub struct TransactionView {
    pub txid: Seq<u8>,
    pub input_count: u64,
    pub outputs: Seq<TxOutputView>,
}

impl View for Transaction {
    type V = TransactionView;

    open spec fn view(&self) -> TransactionView {
        TransactionView {
            txid: self.txid@,
            input_count: self.input_count,
            outputs: Seq::new(self.outputs@.len(), |i: int| self.outputs@[i]@),
        }
    }
}

/// A block as the library reads it: the hash of its header and its
/// transactions in order.
#[derive(Debug, Clone)]
pub struct Block {
    pub block_hash: [u8; 32],
    pub transactions: Vec<Transaction>,
}

/// A block over byte strings.
pub struct BlockView {
    pub block_hash: Seq<u8>,
    pub transactions: Seq<TransactionView>,
}

impl View for Block {
    type V = BlockView;

    open spec fn view(&self) -> BlockView {
        BlockView {
            block_hash: self.block_hash@,
            transactions: Seq::new(self.transactions@.len(), |i: int| self.transactions@[i]@),
        }
    }
}

/// What a marker carries, by class.
#[derive(Debug, Clone, PartialEq, Eq)]
pub enum TransactionData {
    Burn(BurnPayload),
    DataAvailability(DAPayload),
    Fill(FillPayload),
}

/// What a marker carries, over byte strings.
pub enum TransactionDataView {
    Burn { amount: u64, chain_id: u32, destination_address: Seq<u8> },
    DataAvailability { raw_data: Seq<u8> },
    Fill { raw_data: Seq<u8> },
}

impl TransactionDataView {
    /// The class of the marker.
    pub open spec fn tx_type(self) -> TransactionType {
        match self {
            TransactionDataView::Burn { .. } => TransactionType::Burn,
            TransactionDataView::DataAvailability { .. } => TransactionType::DataAvailability,
            TransactionDataView::Fill { .. } => TransactionType::Fill,
        }
    }
}

impl View for TransactionData {
    type V = TransactionDataView;

    open spec fn view(&self) -> TransactionDataView {
        match self {
            TransactionData::Burn(burn) => TransactionDataView::Burn {
                amount: burn.amount,
                chain_id: burn.chain_id,
                destination_address: burn.destination_address@,
            },
            TransactionData::DataAvailability(da) => TransactionDataView::DataAvailability {
                raw_data: da.raw_data@,
            },
            TransactionData::Fill(fill) => TransactionDataView::Fill { raw_data: fill.raw_data@ },
        }
    }
}

impl TransactionData {
    /// The class of the marker.
    pub fn tx_type(&self) -> (tx_type: TransactionType)
        ensures
            tx_type == self@.tx_type(),
    {
        match self {
            TransactionData::Burn(_) => TransactionType::Burn,
            TransactionData::DataAvailability(_) => TransactionType::DataAvailability,
            TransactionData::Fill(_) => TransactionType::Fill,
        }
    }
}

/// A transaction that carries a marker: its id, its position in the block,
/// its class and what the marker holds.
#[derive(Debug, Clone, PartialEq, Eq)]
pub struct MatchingTransaction {
    pub txid: [u8; 32],
    pub transaction_index: u64,
    pub tx_type: TransactionType,
    pub data: TransactionData,
}

/// A matching transaction over byte strings.
pub struct MatchingTransactionView {
    pub txid: Seq<u8>,
    pub transaction_index: u64,
    pub tx_type: TransactionType,
    pub data: TransactionDataView,
}

impl View for MatchingTransaction {
    type V = MatchingTransactionView;

    open spec fn view(&self) -> MatchingTransactionView {
        MatchingTransactionView {
            txid: self.txid@,
            transaction_index: self.transaction_index,
            tx_type: self.tx_type,
            data: self.data@,
        }
    }
}

/// What one invocation produces.
#[derive(Debug, Clone)]
pub struct BitcoinBlockProof {
    /// The hash of the block's header.
    pub block_hash: [u8; 32],
    /// The height that the caller gave.
    pub block_height: u64,
    /// The strategy that the caller selected.
    pub strategy: ProofStrategy,
    /// The transactions that matched, in block order.
    pub matching_transactions: Vec<MatchingTransaction>,
    /// None for a search; for pointing, the one proof of the transaction.
    pub merkle_proofs: Vec<MerkleProof>,
    /// The number of transactions in the block.
    pub total_transactions: u64,
    /// The number of transactions that matched.
    pub matching_count: u64,
}

/// A block proof over byte strings.
pub struct BitcoinBlockProofView {
    pub block_hash: Seq<u8>,
    pub block_height: u64,
    pub strategy: ProofStrategy,
    pub matching_transactions: Seq<MatchingTransactionView>,
    pub merkle_proofs: Seq<MerkleProofView>,
    pub total_transactions: u64,
    pub matching_count: u64,
}

impl BitcoinBlockProofView {
    /// The record counts its matches, holds no Merkle proof for a search,
    /// and holds exactly one match and one Merkle proof for pointing.
    pub open spec fn well_formed(self) -> bool {
        &&& self.matching_count == self.matching_transactions.len()
        &&& match self.strategy {
            ProofStrategy::Searching(_) => self.merkle_proofs.len() == 0,
            ProofStrategy::Pointing(_) => self.merkle_proofs.len() == 1
                && self.matching_transactions.len() == 1,
        }
    }
}

impl View for BitcoinBlockProof {
    type V = BitcoinBlockProofView;

    open spec fn view(&self) -> BitcoinBlockProofView {
        BitcoinBlockProofView {
            block_hash: self.block_hash@,
            block_height: self.block_height,
            strategy: self.strategy,
            matching_transactions: Seq::new(
                self.matching_transactions@.len(),
                |i: int| self.matching_transactions@[i]@,
            ),
            merkle_proofs: Seq::new(self.merkle_proofs@.len(), |i: int| self.merkle_proofs@[i]@),
            total_transactions: self.total_transactions,
            matching_count: self.matching_count,
        }
    }
}

} // verus!
