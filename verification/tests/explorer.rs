use exonum_node::blockchain::{
    Block, Blockchain, ConsensusConfig, StoredBlock, StoredConfiguration, TxLocation,
};
use exonum_node::crypto::{self, PublicKey, Signature};
use exonum_node::explorer::{
    block_info_of, median_precommits_time, ApiError, ApiErrorKind, BlockQuery, BlocksQuery,
    ExplorerApi, TransactionHex, TransactionInfo, TransactionQuery, TransactionResponse,
    MAX_BLOCKS_PER_REQUEST,
};
use exonum_node::helpers::{Height, Round, ValidatorId};
use exonum_node::messages::{Precommit, RawTransaction, Signed, Timestamp};
use exonum_node::node::{ApiSender, ExternalMessage};

fn hash(n: u64) -> crypto::Hash {
    crypto::Hash(0, 0, 0, n)
}

fn tx(n: u64) -> Signed<RawTransaction> {
    Signed::new(
        RawTransaction::new(1, vec![n as u8]),
        PublicKey(0, 0, 0, 9),
        hash(n),
        Signature(0, 0, 0, 0, 0, 0, 0, 0),
    )
}

fn precommit(height: u64, validator: u16, secs: i64, nanos: u32) -> Signed<Precommit> {
    Signed::new(
        Precommit {
            validator: ValidatorId(validator),
            height: Height(height),
            round: Round(1),
            propose_hash: hash(1),
            block_hash: hash(100 + height),
            time: Timestamp { secs, nanos },
        },
        PublicKey(0, 0, 0, validator as u64),
        hash(5000 + validator as u64),
        Signature(0, 0, 0, 0, 0, 0, 0, 0),
    )
}

/// A chain of `count` blocks after the genesis block; the block at the
/// height `h` has `h % 3` transactions, so every third block is empty.
fn chain(count: u64) -> Blockchain {
    let genesis = StoredBlock {
        hash: hash(100),
        header: Block {
            proposer_id: ValidatorId(0),
            height: Height(0),
            tx_count: 0,
            prev_hash: crypto::Hash::zero(),
            tx_hash: crypto::Hash::zero(),
            state_hash: crypto::Hash::zero(),
        },
        precommits: vec![],
        transactions: vec![],
    };
    let stored = StoredConfiguration {
        actual_from: Height(0),
        validator_keys: vec![],
        consensus: ConsensusConfig::default(),
    };
    let mut chain = Blockchain::new(vec![], stored, genesis);
    for h in 1..=count {
        let txs: Vec<Signed<RawTransaction>> = (0..h % 3).map(|i| tx(h * 10 + i)).collect();
        chain.blocks.push(StoredBlock {
            hash: hash(100 + h),
            header: Block {
                proposer_id: ValidatorId(0),
                height: Height(h),
                tx_count: txs.len() as u32,
                prev_hash: hash(100 + h - 1),
                tx_hash: hash(1),
                state_hash: hash(2),
            },
            precommits: vec![
                precommit(h, 0, 10 * h as i64, 3),
                precommit(h, 1, 10 * h as i64, 1),
                precommit(h, 2, 10 * h as i64 - 1, 999),
            ],
            transactions: txs,
        });
    }
    chain
}

fn heights(range: &exonum_node::explorer::BlocksRange) -> Vec<u64> {
    range.blocks.iter().map(|b| b.block.height.0).collect()
}

#[test]
fn blocks_count_at_the_limit_is_accepted_and_above_it_rejected() {
    let chain = chain(5);
    assert_eq!(MAX_BLOCKS_PER_REQUEST, 1000);
    let query = BlocksQuery { count: MAX_BLOCKS_PER_REQUEST, ..BlocksQuery::default() };
    let found = ExplorerApi::blocks(&chain, query).unwrap();
    assert_eq!(heights(&found), vec![5, 4, 3, 2, 1, 0]);
    assert_eq!(found.range, Height(0)..Height(6));

    let query = BlocksQuery { count: MAX_BLOCKS_PER_REQUEST + 1, ..BlocksQuery::default() };
    let error = ExplorerApi::blocks(&chain, query).unwrap_err();
    assert_eq!(error, ApiError::BlockCountExceeded { max: 1000 });
    assert_eq!(error.kind(), ApiErrorKind::BadRequest);
}

#[test]
fn blocks_come_latest_first_and_at_most_count() {
    let chain = chain(10);
    let found =
        ExplorerApi::blocks(&chain, BlocksQuery { count: 3, ..BlocksQuery::default() }).unwrap();
    assert_eq!(heights(&found), vec![10, 9, 8]);
    assert_eq!(found.range, Height(8)..Height(11));
    for info in &found.blocks {
        assert!(info.txs.is_none());
        assert!(info.time.is_none());
        assert!(info.precommits.is_none());
    }
}

#[test]
fn blocks_latest_and_earliest_bound_the_walk() {
    let chain = chain(10);
    let query = BlocksQuery {
        count: 100,
        latest: Some(Height(7)),
        earliest: Some(Height(5)),
        ..BlocksQuery::default()
    };
    let found = ExplorerApi::blocks(&chain, query).unwrap();
    assert_eq!(heights(&found), vec![7, 6, 5]);
    // Fewer blocks than asked for: the walk went down to `earliest`.
    assert_eq!(found.range, Height(5)..Height(8));

    // `earliest` above `latest`: nothing is found.
    let query = BlocksQuery {
        count: 2,
        latest: Some(Height(3)),
        earliest: Some(Height(4)),
        ..BlocksQuery::default()
    };
    let found = ExplorerApi::blocks(&chain, query).unwrap();
    assert!(found.blocks.is_empty());
    assert_eq!(found.range, Height(4)..Height(4));

    // `count` of zero: nothing is found, and the range starts at 0.
    let found = ExplorerApi::blocks(&chain, BlocksQuery::default()).unwrap();
    assert!(found.blocks.is_empty());
    assert_eq!(found.range, Height(0)..Height(11));
}

#[test]
fn blocks_latest_above_the_chain_is_not_found() {
    let chain = chain(4);
    let query = BlocksQuery { count: 1, latest: Some(Height(5)), ..BlocksQuery::default() };
    let error = ExplorerApi::blocks(&chain, query).unwrap_err();
    assert_eq!(
        error,
        ApiError::LatestHeightTooLarge { requested: Height(5), current: Height(4) }
    );
    assert_eq!(error.kind(), ApiErrorKind::NotFound);
    let query = BlocksQuery { count: 1, latest: Some(Height(4)), ..BlocksQuery::default() };
    assert_eq!(heights(&ExplorerApi::blocks(&chain, query).unwrap()), vec![4]);
}

#[test]
fn blocks_skip_empty_blocks() {
    let chain = chain(10);
    let query = BlocksQuery { count: 4, skip_empty_blocks: true, ..BlocksQuery::default() };
    let found = ExplorerApi::blocks(&chain, query).unwrap();
    // Heights 9, 6, 3 and 0 are empty.
    assert_eq!(heights(&found), vec![10, 8, 7, 5]);
    assert_eq!(found.range, Height(5)..Height(11));
    let query = BlocksQuery { count: 100, skip_empty_blocks: true, ..BlocksQuery::default() };
    let found = ExplorerApi::blocks(&chain, query).unwrap();
    assert_eq!(heights(&found), vec![10, 8, 7, 5, 4, 2, 1]);
    assert_eq!(found.range, Height(0)..Height(11));
}

#[test]
fn blocks_with_times_and_precommits() {
    let chain = chain(3);
    let query = BlocksQuery {
        count: 2,
        add_blocks_time: true,
        add_precommits: true,
        ..BlocksQuery::default()
    };
    let found = ExplorerApi::blocks(&chain, query).unwrap();
    assert_eq!(heights(&found), vec![3, 2]);
    // Times of block 3: (29, 999), (30, 1), (30, 3); the median is (30, 1).
    assert_eq!(found.blocks[0].time, Some(Timestamp { secs: 30, nanos: 1 }));
    assert_eq!(found.blocks[1].time, Some(Timestamp { secs: 20, nanos: 1 }));
    assert_eq!(found.blocks[0].precommits.as_ref().unwrap().len(), 3);
    assert_eq!(found.blocks[0].precommits.as_ref().unwrap()[2].payload.time.nanos, 999);
}

#[test]
fn median_of_precommit_times() {
    assert_eq!(median_precommits_time(&vec![]), Timestamp { secs: 0, nanos: 0 });
    assert_eq!(
        median_precommits_time(&vec![precommit(1, 0, 7, 5)]),
        Timestamp { secs: 7, nanos: 5 }
    );
    // Of an even number, the later of the two in the middle.
    let four = vec![
        precommit(1, 0, 4, 0),
        precommit(1, 1, 1, 0),
        precommit(1, 2, 3, 0),
        precommit(1, 3, 2, 0),
    ];
    assert_eq!(median_precommits_time(&four), Timestamp { secs: 3, nanos: 0 });
    let negative = vec![precommit(1, 0, -4, 0), precommit(1, 1, -1, 7), precommit(1, 2, -1, 6)];
    assert_eq!(median_precommits_time(&negative), Timestamp { secs: -1, nanos: 6 });
}

#[test]
fn block_by_height() {
    let chain = chain(3);
    let info = ExplorerApi::block(&chain, BlockQuery::new(Height(2))).unwrap();
    assert_eq!(info.block.height, Height(2));
    assert_eq!(info.txs, Some(vec![hash(20), hash(21)]));
    assert_eq!(info.time, Some(Timestamp { secs: 20, nanos: 1 }));
    assert_eq!(info.precommits.unwrap().len(), 3);
    let error = ExplorerApi::block(&chain, BlockQuery::new(Height(4))).unwrap_err();
    assert_eq!(error, ApiError::BlockNotFound { height: Height(4) });
    assert_eq!(error.kind(), ApiErrorKind::NotFound);
    assert_eq!(block_info_of(&chain.blocks[0]).txs, Some(vec![]));
}

#[test]
fn transaction_by_hash() {
    let mut chain = chain(3);
    chain.pool.insert(tx(7));
    match ExplorerApi::transaction_info(&chain, TransactionQuery::new(hash(7))).unwrap() {
        TransactionInfo::InPool { content } => assert_eq!(content.hash, hash(7)),
        other => panic!("{:?}", other),
    }
    match ExplorerApi::transaction_info(&chain, TransactionQuery::new(hash(21))).unwrap() {
        TransactionInfo::Committed { content, location } => {
            assert_eq!(content.hash, hash(21));
            assert_eq!(location, TxLocation { block_height: Height(2), position_in_block: 1 });
        }
        other => panic!("{:?}", other),
    }
    let error =
        ExplorerApi::transaction_info(&chain, TransactionQuery::new(hash(8))).unwrap_err();
    assert_eq!(error, ApiError::UnknownTransaction);
    assert_eq!(error.kind(), ApiErrorKind::NotFound);
}

#[test]
fn transaction_body_in_hexadecimal() {
    let body = TransactionHex::new("48656c6C6f20776F726c6421".to_owned());
    assert_eq!(body.decode(), Ok(b"Hello world!".to_vec()));
    assert_eq!(TransactionHex::new(String::new()).decode(), Ok(vec![]));
    assert_eq!(TransactionHex::new("0fF0".to_owned()).decode(), Ok(vec![0x0f, 0xf0]));
    let odd = TransactionHex::new("123".to_owned()).decode().unwrap_err();
    assert_eq!(odd, ApiError::OddHexLength);
    assert_eq!(odd.kind(), ApiErrorKind::InternalError);
    assert_eq!(
        TransactionHex::new("12g45x".to_owned()).decode(),
        Err(ApiError::InvalidHexCharacter { c: 'g', index: 2 })
    );
    assert_eq!(
        TransactionHex::new("zz".to_owned()).decode(),
        Err(ApiError::InvalidHexCharacter { c: 'z', index: 0 })
    );
    // The place is counted in bytes: the letter before takes two.
    assert_eq!(
        TransactionHex::new("\u{e9}".to_owned()).decode(),
        Err(ApiError::InvalidHexCharacter { c: '\u{c3}', index: 0 })
    );
}

#[test]
fn posted_transaction_reaches_the_node_or_fails() {
    let mut sender = ApiSender::new();
    let answer = ExplorerApi::add_transaction(&mut sender, tx(3));
    assert_eq!(answer, Ok(TransactionResponse { tx_hash: hash(3) }));
    let answer = ExplorerApi::add_transaction(&mut sender, tx(4));
    assert_eq!(answer, Ok(TransactionResponse { tx_hash: hash(4) }));
    match sender.receive() {
        Some(ExternalMessage::Transaction(t)) => assert_eq!(t.hash, hash(3)),
        other => panic!("{:?}", other),
    }
    // Once the node has stopped, the failure is told.
    sender.close();
    let error = ExplorerApi::add_transaction(&mut sender, tx(5)).unwrap_err();
    assert_eq!(error, ApiError::NodeStopped);
    assert_eq!(error.kind(), ApiErrorKind::InternalError);
    assert_eq!(sender.queue.len(), 1);
}
