use exonum_node::blockchain::Block;
use exonum_node::crypto::{self, PublicKey, Signature};
use exonum_node::helpers::{Height, Round, ValidatorId};
use exonum_node::messages::{
    BlockRequest, BlockResponse, Connect, Message, Payload, PeersRequest, Precommit, Prevote,
    Propose, ProposeRequest, PrevotesRequest, RawTransaction, Signed, Status, Timestamp,
    TransactionsRequest, TransactionsResponse,
};
use exonum_node::wire::codec::{decode, encode, message_from_items, message_to_items};
use exonum_node::wire::{read_items, write_items, Item};

fn key(n: u64) -> PublicKey {
    PublicKey(n, n + 1, n + 2, u64::MAX - n)
}

fn hash(n: u64) -> crypto::Hash {
    crypto::Hash(n, 0, u64::MAX, n * 3)
}

fn signature(n: u64) -> Signature {
    Signature(n, 1, 2, 3, 4, 5, 6, u64::MAX)
}

fn signed(payload: Payload) -> Message {
    // A message read from the wire bears no digest.
    Signed::new(payload, key(7), crypto::Hash::zero(), signature(9))
}

fn precommit(n: u64) -> Precommit {
    Precommit {
        validator: ValidatorId(n as u16),
        height: Height(n + 10),
        round: Round(n as u32 + 1),
        propose_hash: hash(n),
        block_hash: hash(n + 1),
        time: Timestamp { secs: -5 - n as i64, nanos: 999_999_999 },
    }
}

fn every_kind() -> Vec<Message> {
    vec![
        signed(Payload::Connect(Connect::new(
            "127.0.0.1:2000",
            Timestamp { secs: 1_600_000_000, nanos: 17 },
            "exonum-node 0.1.0 \u{00e9}\u{4e16}",
        ))),
        signed(Payload::Status(Status { height: Height(u64::MAX), last_hash: hash(1) })),
        signed(Payload::Propose(Propose {
            validator: ValidatorId(u16::MAX),
            height: Height(3),
            round: Round(u32::MAX),
            prev_hash: hash(2),
            transactions: vec![hash(3), hash(4), hash(5)],
        })),
        signed(Payload::Propose(Propose {
            validator: ValidatorId(0),
            height: Height(0),
            round: Round(1),
            prev_hash: hash(2),
            transactions: vec![],
        })),
        signed(Payload::Prevote(Prevote {
            validator: ValidatorId(2),
            height: Height(3),
            round: Round(4),
            propose_hash: hash(5),
            locked_round: Round(1),
        })),
        signed(Payload::Precommit(precommit(1))),
        signed(Payload::Transaction(RawTransaction::new(258, vec![0, 1, 2, 255]))),
        signed(Payload::Transaction(RawTransaction::new(0, vec![]))),
        signed(Payload::BlockResponse(BlockResponse {
            to: key(3),
            block: Block {
                proposer_id: ValidatorId(1),
                height: Height(8),
                tx_count: 2,
                prev_hash: hash(1),
                tx_hash: hash(2),
                state_hash: hash(3),
            },
            block_hash: hash(4),
            precommits: vec![
                Signed::new(precommit(1), key(1), crypto::Hash::zero(), signature(1)),
                Signed::new(precommit(2), key(2), crypto::Hash::zero(), signature(2)),
                Signed::new(precommit(3), key(3), crypto::Hash::zero(), signature(3)),
            ],
            transactions: vec![hash(10), hash(11)],
        })),
        signed(Payload::TransactionsResponse(TransactionsResponse {
            to: key(4),
            transactions: vec![
                Signed::new(
                    RawTransaction::new(1, vec![1, 2, 3]),
                    key(5),
                    crypto::Hash::zero(),
                    signature(5),
                ),
                Signed::new(RawTransaction::new(2, vec![]), key(6), crypto::Hash::zero(), signature(6)),
            ],
        })),
        signed(Payload::TransactionsRequest(TransactionsRequest {
            to: key(5),
            txs: vec![hash(1), hash(2)],
        })),
        signed(Payload::ProposeRequest(ProposeRequest {
            to: key(6),
            height: Height(9),
            propose_hash: hash(3),
        })),
        signed(Payload::PrevotesRequest(PrevotesRequest {
            to: key(7),
            height: Height(9),
            round: Round(2),
            propose_hash: hash(3),
        })),
        signed(Payload::PeersRequest(PeersRequest { to: key(8) })),
        signed(Payload::BlockRequest(BlockRequest { to: key(9), height: Height(77) })),
    ]
}

#[test]
fn every_kind_of_message_survives_the_wire() {
    for message in every_kind() {
        let bytes = encode(&message);
        let back = decode(&bytes).expect("what was encoded is decoded");
        assert_eq!(format!("{:?}", back), format!("{:?}", message));
        // And the bytes that are decoded are the bytes of what they are
        // decoded as.
        assert_eq!(encode(&back), bytes);
    }
}

#[test]
fn different_messages_have_different_bytes() {
    let all: Vec<Vec<u8>> = every_kind().iter().map(encode).collect();
    for (i, a) in all.iter().enumerate() {
        for b in all.iter().skip(i + 1) {
            assert_ne!(a, b);
        }
    }
}

#[test]
fn the_digest_does_not_travel() {
    let with = Signed::new(
        Payload::Status(Status { height: Height(1), last_hash: hash(1) }),
        key(1),
        hash(99),
        signature(1),
    );
    let without = Signed::new(
        Payload::Status(Status { height: Height(1), last_hash: hash(1) }),
        key(1),
        crypto::Hash::zero(),
        signature(1),
    );
    assert_eq!(encode(&with), encode(&without));
    assert_eq!(decode(&encode(&with)).unwrap().hash, crypto::Hash::zero());
}

#[test]
fn status_has_the_bytes_that_the_layout_gives() {
    let message = Signed::new(
        Payload::Status(Status { height: Height(0x0102), last_hash: crypto::Hash(1, 2, 3, 4) }),
        PublicKey(5, 6, 7, 8),
        crypto::Hash::zero(),
        Signature(9, 10, 11, 12, 13, 14, 15, 16),
    );
    let mut expected: Vec<u8> = vec![];
    for w in [5u64, 6, 7, 8, 9, 10, 11, 12, 13, 14, 15, 16, 1, 0x0102, 1, 2, 3, 4] {
        expected.push(0);
        expected.extend_from_slice(&w.to_le_bytes());
    }
    assert_eq!(encode(&message), expected);
    assert_eq!(expected.len(), 18 * 9);
}

#[test]
fn malformed_bytes_are_refused() {
    let good = encode(&every_kind()[4]);
    assert!(decode(&good).is_some());
    // Cut short.
    assert!(decode(&good[..good.len() - 1]).is_none());
    assert!(decode(&good[..9]).is_none());
    assert!(decode(&[]).is_none());
    // One byte too many.
    let mut long = good.clone();
    long.push(0);
    assert!(decode(&long).is_none());
    // An unknown tag of an item.
    let mut tag = good.clone();
    tag[0] = 2;
    assert!(decode(&tag).is_none());
    // An unknown kind of message: the kind is the thirteenth word.
    let mut kind = good.clone();
    kind[12 * 9 + 1] = 13;
    assert!(decode(&kind).is_none());
    // A validator index that 16 bits do not hold.
    let mut validator = good.clone();
    validator[13 * 9 + 3] = 1;
    assert!(decode(&validator).is_none());
}

#[test]
fn items_are_written_and_read() {
    let items = vec![Item::Word(0), Item::Bytes(vec![1, 2, 3]), Item::Word(u64::MAX), Item::Bytes(vec![])];
    let bytes = write_items(&items);
    assert_eq!(
        bytes,
        vec![
            0, 0, 0, 0, 0, 0, 0, 0, 0, // word 0
            1, 3, 0, 0, 0, 0, 0, 0, 0, 1, 2, 3, // three bytes
            0, 255, 255, 255, 255, 255, 255, 255, 255, // the greatest word
            1, 0, 0, 0, 0, 0, 0, 0, 0, // no bytes
        ]
    );
    let back = read_items(&bytes).unwrap();
    assert_eq!(format!("{:?}", back), format!("{:?}", items));
    // A string that says it is longer than what is left.
    assert!(read_items(&[1, 4, 0, 0, 0, 0, 0, 0, 0, 1, 2, 3]).is_none());
    assert!(read_items(&[1, 255, 255, 255, 255, 255, 255, 255, 255]).is_none());
}

#[test]
fn connect_with_text_that_is_not_utf8_is_refused() {
    let message = &every_kind()[0];
    let mut items = message_to_items(message);
    assert!(message_from_items(message_to_items(message)).is_some());
    items[13] = Item::Bytes(vec![0xff, 0xfe]);
    assert!(message_from_items(items).is_none());
}
