use bitcoin::absolute::LockTime;
use bitcoin::block::{Header, Version as BlockVersion};
use bitcoin::consensus::serialize;
use bitcoin::transaction::Version;
use bitcoin::{
    Amount, BlockHash, CompactTarget, OutPoint, ScriptBuf, Sequence, TxIn, TxMerkleNode, TxOut,
    Witness,
};
use corelane_proof::classify::{check_transaction_patterns, classify_output};
use corelane_proof::merkle::MerkleTree;
use corelane_proof::payload::{BurnPayload, DAPayload, FillPayload};
use corelane_proof::processor::{
    collect_txids, find_transaction, process_bitcoin_block, process_block,
    process_pointing_strategy, process_searching_strategy, ProofError,
};
use corelane_proof::types::{
    BitcoinBlockInput, Block, CoreLanePatterns, MatchingTransaction, PointingProof,
    ProofStrategy, SearchingProof, Transaction, TransactionData, TransactionPattern,
    TransactionType, TxOutput,
};

fn burn_payload() -> Vec<u8> {
    let mut payload = b"BRN1".to_vec();
    payload.extend_from_slice(&[0x00, 0x00, 0x00, 0x01]);
    payload.extend_from_slice(&[0x42; 20]);
    payload
}

fn marker_script(payload: &[u8]) -> Vec<u8> {
    assert!(payload.len() < 76);
    let mut script = vec![0x6a, payload.len() as u8];
    script.extend_from_slice(payload);
    script
}

fn plain_script() -> Vec<u8> {
    let mut script = vec![0x76, 0xa9, 0x14];
    script.extend_from_slice(&[0x11; 20]);
    script.extend_from_slice(&[0x88, 0xac]);
    script
}

fn tx(id: u8, scripts: Vec<Vec<u8>>) -> Transaction {
    Transaction {
        txid: [id; 32],
        input_count: 1,
        outputs: scripts
            .into_iter()
            .map(|script_pubkey| TxOutput { value: 100000, script_pubkey })
            .collect(),
    }
}

fn three_tx_block() -> Block {
    Block {
        block_hash: [0xbb; 32],
        transactions: vec![
            tx(1, vec![plain_script()]),
            tx(2, vec![plain_script(), marker_script(&burn_payload())]),
            tx(3, vec![plain_script()]),
        ],
    }
}

fn burn_match(id: u8, index: u64) -> MatchingTransaction {
    MatchingTransaction {
        txid: [id; 32],
        transaction_index: index,
        tx_type: TransactionType::Burn,
        data: TransactionData::Burn(BurnPayload {
            amount: 100000,
            chain_id: 1,
            destination_address: [0x42; 20],
        }),
    }
}

fn search(block: &Block, pattern: TransactionPattern) -> Vec<MatchingTransaction> {
    let proof =
        process_searching_strategy(block, &SearchingProof { pattern }, &block.block_hash, 7)
            .unwrap();
    assert!(proof.merkle_proofs.is_empty());
    assert_eq!(proof.matching_count, proof.matching_transactions.len() as u64);
    assert_eq!(proof.total_transactions, block.transactions.len() as u64);
    assert_eq!(proof.block_hash, block.block_hash);
    assert_eq!(proof.block_height, 7);
    assert!(matches!(proof.strategy, ProofStrategy::Searching(s) if s.pattern == pattern));
    proof.matching_transactions
}

fn point(block: &Block, id: u8, expected_type: TransactionType) -> PointingProof {
    let _ = block;
    PointingProof { txid: [id; 32], tx_position: 0, expected_type }
}

#[test]
fn output_with_a_burn_marker_is_classified_as_burn() {
    let patterns = CoreLanePatterns::default();
    let output = TxOutput { value: 1, script_pubkey: marker_script(&burn_payload()) };
    let data = classify_output(&output, 3, &patterns).unwrap();
    assert_eq!(
        data,
        TransactionData::Burn(BurnPayload {
            amount: 300000,
            chain_id: 1,
            destination_address: [0x42; 20]
        })
    );
    let plain = TxOutput { value: 1, script_pubkey: plain_script() };
    assert_eq!(classify_output(&plain, 3, &patterns), None);
    let short = TxOutput { value: 1, script_pubkey: marker_script(b"BRN1") };
    assert_eq!(classify_output(&short, 3, &patterns), None);
}

#[test]
fn transaction_is_classified_by_its_first_marker() {
    let patterns = CoreLanePatterns::default();
    let both = tx(
        5,
        vec![plain_script(), marker_script(b"COREdata"), marker_script(&burn_payload())],
    );
    let all = check_transaction_patterns(&both, 4, &patterns, &TransactionPattern::All).unwrap();
    assert_eq!(
        all,
        MatchingTransaction {
            txid: [5; 32],
            transaction_index: 4,
            tx_type: TransactionType::DataAvailability,
            data: TransactionData::DataAvailability(DAPayload { raw_data: b"COREdata".to_vec() }),
        }
    );
    assert!(check_transaction_patterns(&both, 4, &patterns, &TransactionPattern::DataAvailability)
        .is_some());
    assert_eq!(check_transaction_patterns(&both, 4, &patterns, &TransactionPattern::Burns), None);
    assert_eq!(check_transaction_patterns(&both, 4, &patterns, &TransactionPattern::Fills), None);
}

#[test]
fn transaction_is_returned_only_under_a_pattern_that_accepts_it() {
    let patterns = CoreLanePatterns::default();
    let burn = tx(2, vec![marker_script(&burn_payload())]);
    let da = tx(3, vec![marker_script(b"CORE")]);
    let fill = tx(4, vec![marker_script(b"FILLabc")]);
    let none = tx(5, vec![plain_script(), marker_script(b"nothing")]);
    let empty = tx(6, Vec::new());
    let patterns_all = [
        TransactionPattern::Burns,
        TransactionPattern::DataAvailability,
        TransactionPattern::Fills,
        TransactionPattern::All,
    ];
    let expected = [
        (&burn, [true, false, false, true]),
        (&da, [false, true, false, true]),
        (&fill, [false, false, true, true]),
        (&none, [false, false, false, false]),
        (&empty, [false, false, false, false]),
    ];
    for (transaction, accepted) in expected {
        for (pattern, want) in patterns_all.iter().zip(accepted) {
            let got = check_transaction_patterns(transaction, 0, &patterns, pattern);
            assert_eq!(got.is_some(), want);
        }
    }
    let found = check_transaction_patterns(&fill, 9, &patterns, &TransactionPattern::Fills);
    assert_eq!(
        found,
        Some(MatchingTransaction {
            txid: [4; 32],
            transaction_index: 9,
            tx_type: TransactionType::Fill,
            data: TransactionData::Fill(FillPayload { raw_data: b"FILLabc".to_vec() }),
        })
    );
}

#[test]
fn searching_for_burns_finds_the_one_burn() {
    let block = three_tx_block();
    assert_eq!(search(&block, TransactionPattern::Burns), vec![burn_match(2, 1)]);
}

#[test]
fn searching_for_all_finds_the_same_match() {
    let block = three_tx_block();
    assert_eq!(search(&block, TransactionPattern::All), vec![burn_match(2, 1)]);
}

#[test]
fn searching_for_data_availability_finds_nothing() {
    let block = three_tx_block();
    assert_eq!(search(&block, TransactionPattern::DataAvailability), Vec::new());
    assert_eq!(search(&block, TransactionPattern::Fills), Vec::new());
}

#[test]
fn searching_reports_matches_in_block_order() {
    let block = Block {
        block_hash: [1; 32],
        transactions: vec![
            tx(1, vec![marker_script(b"COREa")]),
            tx(2, vec![plain_script()]),
            tx(3, vec![marker_script(&burn_payload())]),
            tx(4, vec![marker_script(b"FILL")]),
            tx(5, vec![marker_script(b"COREb")]),
        ],
    };
    let all = search(&block, TransactionPattern::All);
    let seen: Vec<(u8, u64, TransactionType)> =
        all.iter().map(|m| (m.txid[0], m.transaction_index, m.tx_type)).collect();
    assert_eq!(
        seen,
        vec![
            (1, 0, TransactionType::DataAvailability),
            (3, 2, TransactionType::Burn),
            (4, 3, TransactionType::Fill),
            (5, 4, TransactionType::DataAvailability),
        ]
    );
    let da = search(&block, TransactionPattern::DataAvailability);
    let seen: Vec<u64> = da.iter().map(|m| m.transaction_index).collect();
    assert_eq!(seen, vec![0, 4]);
}

#[test]
fn searching_an_empty_block_finds_nothing() {
    let block = Block { block_hash: [0; 32], transactions: Vec::new() };
    assert_eq!(search(&block, TransactionPattern::All), Vec::new());
}

#[test]
fn pointing_at_the_burn_yields_one_match_and_one_proof() {
    let block = three_tx_block();
    let pointing = point(&block, 2, TransactionType::Burn);
    let proof = process_pointing_strategy(&block, &pointing, &block.block_hash, 11).unwrap();
    assert_eq!(proof.matching_transactions, vec![burn_match(2, 1)]);
    assert_eq!(proof.matching_count, 1);
    assert_eq!(proof.total_transactions, 3);
    assert_eq!(proof.block_hash, [0xbb; 32]);
    assert_eq!(proof.block_height, 11);
    assert!(matches!(proof.strategy, ProofStrategy::Pointing(p) if p.txid == [2; 32]));
    assert_eq!(proof.merkle_proofs.len(), 1);

    let txids = vec![[1u8; 32], [2u8; 32], [3u8; 32]];
    let tree = MerkleTree::build_merkle_tree(&txids).unwrap();
    assert_eq!(proof.merkle_proofs[0], tree.generate_proof(1).unwrap());
    assert_eq!(proof.merkle_proofs[0].txid, [2; 32]);
    assert_eq!(proof.merkle_proofs[0].path.len(), 2);
    assert_eq!(proof.merkle_proofs[0].verify_proof(&tree.merkle_root), Ok(true));

    let padded = vec![[1u8; 32], [2u8; 32], [3u8; 32], [3u8; 32]];
    let padded_tree = MerkleTree::build_merkle_tree(&padded).unwrap();
    assert_eq!(proof.merkle_proofs[0].verify_proof(&padded_tree.merkle_root), Ok(true));
}

#[test]
fn pointing_does_not_read_the_position_given() {
    let block = three_tx_block();
    let mut pointing = point(&block, 2, TransactionType::Burn);
    pointing.tx_position = 2;
    let proof = process_pointing_strategy(&block, &pointing, &block.block_hash, 0).unwrap();
    assert_eq!(proof.matching_transactions[0].transaction_index, 1);
    pointing.tx_position = u32::MAX;
    assert!(process_pointing_strategy(&block, &pointing, &block.block_hash, 0).is_ok());
}

#[test]
fn pointing_at_an_absent_transaction_is_not_found() {
    let block = three_tx_block();
    let pointing = point(&block, 9, TransactionType::Burn);
    assert_eq!(
        process_pointing_strategy(&block, &pointing, &block.block_hash, 0).unwrap_err(),
        ProofError::NotFound
    );
    let empty = Block { block_hash: [0; 32], transactions: Vec::new() };
    assert_eq!(
        process_pointing_strategy(&empty, &pointing, &empty.block_hash, 0).unwrap_err(),
        ProofError::NotFound
    );
}

#[test]
fn pointing_at_a_transaction_without_marker_is_no_pattern_match() {
    let block = three_tx_block();
    let pointing = point(&block, 1, TransactionType::Burn);
    assert_eq!(
        process_pointing_strategy(&block, &pointing, &block.block_hash, 0).unwrap_err(),
        ProofError::NoPatternMatch
    );
}

#[test]
fn pointing_with_another_expected_type_is_a_type_mismatch() {
    let block = three_tx_block();
    for expected in [TransactionType::DataAvailability, TransactionType::Fill] {
        let pointing = point(&block, 2, expected);
        assert_eq!(
            process_pointing_strategy(&block, &pointing, &block.block_hash, 0).unwrap_err(),
            ProofError::TypeMismatch
        );
    }
}

#[test]
fn pointing_takes_the_first_transaction_with_the_id() {
    let block = Block {
        block_hash: [0; 32],
        transactions: vec![
            tx(1, vec![plain_script()]),
            tx(7, vec![marker_script(b"CORE")]),
            tx(7, vec![marker_script(&burn_payload())]),
        ],
    };
    assert_eq!(find_transaction(&block, &[7; 32]), Some(1));
    assert_eq!(find_transaction(&block, &[1; 32]), Some(0));
    assert_eq!(find_transaction(&block, &[2; 32]), None);
    let pointing = point(&block, 7, TransactionType::DataAvailability);
    let proof = process_pointing_strategy(&block, &pointing, &block.block_hash, 0).unwrap();
    assert_eq!(proof.matching_transactions[0].transaction_index, 1);
}

#[test]
fn pointing_in_a_block_of_one_transaction_gives_an_empty_path() {
    let block =
        Block { block_hash: [0; 32], transactions: vec![tx(4, vec![marker_script(b"CORE")])] };
    let pointing = point(&block, 4, TransactionType::DataAvailability);
    let proof = process_pointing_strategy(&block, &pointing, &block.block_hash, 0).unwrap();
    assert!(proof.merkle_proofs[0].path.is_empty());
    assert_eq!(proof.merkle_proofs[0].verify_proof(&[4; 32]), Ok(true));
}

#[test]
fn txids_are_collected_in_block_order() {
    let block = three_tx_block();
    assert_eq!(collect_txids(&block), vec![[1u8; 32], [2u8; 32], [3u8; 32]]);
}

#[test]
fn process_block_runs_the_strategy_given() {
    let block = three_tx_block();
    let searching =
        ProofStrategy::Searching(SearchingProof { pattern: TransactionPattern::Burns });
    let found = process_block(&block, 5, &searching).unwrap();
    assert_eq!(found.matching_transactions, vec![burn_match(2, 1)]);
    assert!(found.merkle_proofs.is_empty());
    assert_eq!(found.block_hash, [0xbb; 32]);

    let pointing = ProofStrategy::Pointing(point(&block, 2, TransactionType::Burn));
    let pointed = process_block(&block, 5, &pointing).unwrap();
    assert_eq!(pointed.matching_transactions, vec![burn_match(2, 1)]);
    assert_eq!(pointed.merkle_proofs.len(), 1);

    let absent = ProofStrategy::Pointing(point(&block, 8, TransactionType::Burn));
    assert_eq!(process_block(&block, 5, &absent).unwrap_err(), ProofError::NotFound);
}

fn outside_tx(marker: Option<&[u8]>, tag: u32) -> bitcoin::Transaction {
    let mut output = vec![TxOut {
        value: Amount::from_sat(50000),
        script_pubkey: ScriptBuf::from_bytes(plain_script()),
    }];
    if let Some(payload) = marker {
        output.push(TxOut {
            value: Amount::from_sat(0),
            script_pubkey: ScriptBuf::from_bytes(marker_script(payload)),
        });
    }
    bitcoin::Transaction {
        version: Version::TWO,
        lock_time: LockTime::from_consensus(tag),
        input: vec![TxIn {
            previous_output: OutPoint::null(),
            script_sig: ScriptBuf::new(),
            sequence: Sequence::ENABLE_RBF_NO_LOCKTIME,
            witness: Witness::new(),
        }],
        output,
    }
}

fn outside_block() -> bitcoin::Block {
    let txdata = vec![
        outside_tx(None, 1),
        outside_tx(Some(&burn_payload()), 2),
        outside_tx(None, 3),
    ];
    let merkle_root: TxMerkleNode = bitcoin::hashes::Hash::all_zeros();
    let prev_blockhash: BlockHash = bitcoin::hashes::Hash::all_zeros();
    let header = Header {
        version: BlockVersion::TWO,
        prev_blockhash,
        merkle_root,
        time: 1231006505,
        bits: CompactTarget::from_consensus(0x1d00ffff),
        nonce: 2083236893,
    };
    bitcoin::Block { header, txdata }
}

fn txid_bytes(transaction: &bitcoin::Transaction) -> [u8; 32] {
    bitcoin::hashes::Hash::to_byte_array(transaction.compute_txid())
}

#[test]
fn raw_block_is_searched_for_burns() {
    let block = outside_block();
    let input = BitcoinBlockInput {
        raw_block: serialize(&block),
        block_height: 800000,
        strategy: ProofStrategy::Searching(SearchingProof { pattern: TransactionPattern::Burns }),
    };
    let proof = process_bitcoin_block(&input).unwrap();
    assert_eq!(proof.block_hash, bitcoin::hashes::Hash::to_byte_array(block.block_hash()));
    assert_eq!(proof.block_height, 800000);
    assert_eq!(proof.total_transactions, 3);
    assert_eq!(proof.matching_count, 1);
    assert!(proof.merkle_proofs.is_empty());
    assert_eq!(
        proof.matching_transactions,
        vec![MatchingTransaction {
            txid: txid_bytes(&block.txdata[1]),
            transaction_index: 1,
            tx_type: TransactionType::Burn,
            data: TransactionData::Burn(BurnPayload {
                amount: 100000,
                chain_id: 1,
                destination_address: [0x42; 20],
            }),
        }]
    );
}

#[test]
fn raw_block_is_pointed_into_with_a_proof_against_its_merkle_root() {
    let block = outside_block();
    let input = BitcoinBlockInput {
        raw_block: serialize(&block),
        block_height: 1,
        strategy: ProofStrategy::Pointing(PointingProof {
            txid: txid_bytes(&block.txdata[1]),
            tx_position: 1,
            expected_type: TransactionType::Burn,
        }),
    };
    let proof = process_bitcoin_block(&input).unwrap();
    assert_eq!(proof.matching_transactions.len(), 1);
    assert_eq!(proof.matching_transactions[0].txid, txid_bytes(&block.txdata[1]));
    assert_eq!(proof.merkle_proofs.len(), 1);
    let root = block.compute_merkle_root().unwrap();
    let root = bitcoin::hashes::Hash::to_byte_array(root);
    assert_eq!(proof.merkle_proofs[0].verify_proof(&root), Ok(true));
}

#[test]
fn raw_block_failures_are_told_apart() {
    let block = outside_block();
    let raw_block = serialize(&block);
    let run = |txid: [u8; 32], expected_type: TransactionType| {
        process_bitcoin_block(&BitcoinBlockInput {
            raw_block: raw_block.clone(),
            block_height: 1,
            strategy: ProofStrategy::Pointing(PointingProof { txid, tx_position: 0, expected_type }),
        })
    };
    assert_eq!(run([0xab; 32], TransactionType::Burn).unwrap_err(), ProofError::NotFound);
    assert_eq!(
        run(txid_bytes(&block.txdata[0]), TransactionType::Burn).unwrap_err(),
        ProofError::NoPatternMatch
    );
    assert_eq!(
        run(txid_bytes(&block.txdata[1]), TransactionType::Fill).unwrap_err(),
        ProofError::TypeMismatch
    );
    assert!(run(txid_bytes(&block.txdata[1]), TransactionType::Burn).is_ok());
}

#[test]
fn bytes_that_are_no_block_are_a_parse_error() {
    let strategy = ProofStrategy::Searching(SearchingProof { pattern: TransactionPattern::All });
    let mut raw_block = serialize(&outside_block());
    raw_block.push(0);
    let trailing = BitcoinBlockInput { raw_block, block_height: 0, strategy };
    assert_eq!(process_bitcoin_block(&trailing).unwrap_err(), ProofError::ParseError);
    let empty = BitcoinBlockInput { raw_block: Vec::new(), block_height: 0, strategy };
    assert_eq!(process_bitcoin_block(&empty).unwrap_err(), ProofError::ParseError);
    let cut = BitcoinBlockInput { raw_block: vec![1, 2, 3], block_height: 0, strategy };
    assert_eq!(process_bitcoin_block(&cut).unwrap_err(), ProofError::ParseError);
}
