//! How each message is laid out as a row of items, and the proof that the
//! layout loses nothing and admits nothing twice.
//!
//! On the wire a message is the key of its author, its signature and its
//! content; the digest of a message is not sent, since the receiver computes
//! it from the bytes. A message as it is on the wire is therefore a value of
//! its own, without digests.

use vstd::prelude::*;
use crate::blockchain::Block;
use crate::crypto::{self, PublicKey, Signature};
use crate::helpers::{Height, Round, ValidatorId};
use crate::messages::{
    BlockRequest, PeersRequest, Precommit, Prevote, ProposeRequest, ProposeView, PrevotesRequest,
    Status, Timestamp, TxView,
};
use crate::wire::ItemView;

verus! {

/// A signed value as it is on the wire.
pub struct WireSigned<T> {
    /// Public key of the signer.
    pub author: PublicKey,
    /// The signature.
    pub signature: Signature,
    /// The content.
    pub payload: T,
}

/// An address advertisement as it is on the wire.
pub struct WireConnect {
    /// Address at which the node is reached.
    pub pub_addr: Seq<char>,
    /// When the advertisement was made.
    pub time: Timestamp,
    /// Version of the software.
    pub user_agent: Seq<char>,
}

/// A catch-up payload as it is on the wire.
pub struct WireBlockResponse {
    /// Key of the node that asked.
    pub to: PublicKey,
    /// Header of the block.
    pub block: Block,
    /// Hash of the block.
    pub block_hash: crypto::Hash,
    /// Precommits that justify the block.
    pub precommits: Seq<WireSigned<Precommit>>,
    /// Hashes of the block's transactions, in block order.
    pub transactions: Seq<crypto::Hash>,
}

/// The content of a message as it is on the wire.
pub enum WirePayload {
    /// Address advertisement.
    Connect(WireConnect),
    /// Progress beacon.
    Status(Status),
    /// Block nomination.
    Propose(ProposeView),
    /// First vote.
    Prevote(Prevote),
    /// Second vote.
    Precommit(Precommit),
    /// A transaction.
    Transaction(TxView),
    /// Catch-up payload.
    BlockResponse(WireBlockResponse),
    /// Answer with transactions, for the node with the given key.
    TransactionsResponse(PublicKey, Seq<WireSigned<TxView>>),
    /// Request for transactions, to the node with the given key.
    TransactionsRequest(PublicKey, Seq<crypto::Hash>),
    /// Request for a propose.
    ProposeRequest(ProposeRequest),
    /// Request for prevotes.
    PrevotesRequest(PrevotesRequest),
    /// Request for peers.
    PeersRequest(PeersRequest),
    /// Request for a block.
    BlockRequest(BlockRequest),
}

/// The word `x` as an item.
pub open spec fn word(x: int) -> ItemView {
    ItemView::Word(x as u64)
}

/// The word that the item at `i` of `items` holds; 0 where it holds none.
pub open spec fn word_at(items: Seq<ItemView>, i: int) -> u64 {
    match items[i] {
        ItemView::Word(w) => w,
        ItemView::Bytes(_) => 0,
    }
}

/// The bytes that the item at `i` of `items` holds; none where it holds a
/// word.
pub open spec fn bytes_at(items: Seq<ItemView>, i: int) -> Seq<u8> {
    match items[i] {
        ItemView::Word(_) => Seq::empty(),
        ItemView::Bytes(b) => b,
    }
}

/// Whether the items of `items` from `from` up to `to` are there and are
/// words.
pub open spec fn are_words(items: Seq<ItemView>, from: int, to: int) -> bool {
    &&& 0 <= from <= to <= items.len()
    &&& forall|i: int| from <= i < to ==> (#[trigger] items[i]) is Word
}

/// The four words of the digest `h`.
pub open spec fn hash_items(h: crypto::Hash) -> Seq<ItemView> {
    seq![word(h.0 as int), word(h.1 as int), word(h.2 as int), word(h.3 as int)]
}

/// The digest that the four words at `i` of `items` make.
pub open spec fn hash_at(items: Seq<ItemView>, i: int) -> crypto::Hash {
    crypto::Hash(
        word_at(items, i),
        word_at(items, i + 1),
        word_at(items, i + 2),
        word_at(items, i + 3),
    )
}

/// The four words of the key `k`.
pub open spec fn key_items(k: PublicKey) -> Seq<ItemView> {
    seq![word(k.0 as int), word(k.1 as int), word(k.2 as int), word(k.3 as int)]
}

/// The key that the four words at `i` of `items` make.
pub open spec fn key_at(items: Seq<ItemView>, i: int) -> PublicKey {
    PublicKey(
        word_at(items, i),
        word_at(items, i + 1),
        word_at(items, i + 2),
        word_at(items, i + 3),
    )
}

/// The eight words of the signature `s`.
pub open spec fn signature_items(s: Signature) -> Seq<ItemView> {
    seq![
        word(s.0 as int),
        word(s.1 as int),
        word(s.2 as int),
        word(s.3 as int),
        word(s.4 as int),
        word(s.5 as int),
        word(s.6 as int),
        word(s.7 as int),
    ]
}

/// The signature that the eight words at `i` of `items` make.
pub open spec fn signature_at(items: Seq<ItemView>, i: int) -> Signature {
    Signature(
        word_at(items, i),
        word_at(items, i + 1),
        word_at(items, i + 2),
        word_at(items, i + 3),
        word_at(items, i + 4),
        word_at(items, i + 5),
        word_at(items, i + 6),
        word_at(items, i + 7),
    )
}

/// The word that stands for `secs` seconds: the same 64 bits.
pub open spec fn seconds_word(secs: i64) -> u64 {
    if secs >= 0 {
        secs as u64
    } else {
        (secs + 0x1_0000_0000_0000_0000) as u64
    }
}

/// The seconds that the word `w` stands for.
pub open spec fn word_seconds(w: u64) -> i64 {
    if w <= 0x7fff_ffff_ffff_ffff {
        w as i64
    } else {
        (w - 0x1_0000_0000_0000_0000) as i64
    }
}

/// The thirteen words of the precommit `p`.
pub open spec fn precommit_items(p: Precommit) -> Seq<ItemView> {
    seq![word(p.validator.0 as int), word(p.height.0 as int), word(p.round.0 as int)]
        + hash_items(p.propose_hash) + hash_items(p.block_hash) + seq![
        word(seconds_word(p.time.secs) as int),
        word(p.time.nanos as int),
    ]
}

/// Whether the thirteen items at `i` of `items` are the words of a
/// precommit.
pub open spec fn is_precommit_at(items: Seq<ItemView>, i: int) -> bool {
    &&& are_words(items, i, i + 13)
    &&& word_at(items, i) <= u16::MAX
    &&& word_at(items, i + 2) <= u32::MAX
    &&& word_at(items, i + 12) <= u32::MAX
}

/// The precommit that the thirteen words at `i` of `items` make.
pub open spec fn precommit_at(items: Seq<ItemView>, i: int) -> Precommit {
    Precommit {
        validator: ValidatorId(word_at(items, i) as u16),
        height: Height(word_at(items, i + 1)),
        round: Round(word_at(items, i + 2) as u32),
        propose_hash: hash_at(items, i + 3),
        block_hash: hash_at(items, i + 7),
        time: Timestamp {
            secs: word_seconds(word_at(items, i + 11)),
            nanos: word_at(items, i + 12) as u32,
        },
    }
}

/// The item at `i` of the row of the digests `hashes`, laid one after
/// another, four words each.
pub open spec fn hashes_item(hashes: Seq<crypto::Hash>, i: int) -> ItemView {
    word(
        if i % 4 == 0 {
            hashes[i / 4].0
        } else if i % 4 == 1 {
            hashes[i / 4].1
        } else if i % 4 == 2 {
            hashes[i / 4].2
        } else {
            hashes[i / 4].3
        } as int,
    )
}

/// The words of the digests `hashes`: their number, then four words for
/// each.
pub open spec fn hashes_items(hashes: Seq<crypto::Hash>) -> Seq<ItemView> {
    seq![word(hashes.len() as int)] + Seq::new(4 * hashes.len(), |i: int| hashes_item(hashes, i))
}

/// Whether the items of `items` from `i` on, to the end, are the words of a
/// list of digests.
pub open spec fn are_hashes_at(items: Seq<ItemView>, i: int) -> bool {
    &&& 0 <= i < items.len()
    &&& are_words(items, i, items.len() as int)
    &&& items.len() == i + 1 + 4 * word_at(items, i)
}

/// The digests that the words of `items` from `i` on make.
pub open spec fn hashes_at(items: Seq<ItemView>, i: int) -> Seq<crypto::Hash> {
    Seq::new(word_at(items, i) as nat, |j: int| hash_at(items, i + 1 + 4 * j))
}

/// The items of a signed precommit: the key of the author, the signature,
/// the precommit; 25 words.
pub open spec fn signed_precommit_items(p: WireSigned<Precommit>) -> Seq<ItemView> {
    key_items(p.author) + signature_items(p.signature) + precommit_items(p.payload)
}

/// The item at `i` of the row of the signed precommits `precommits`, laid
/// one after another.
pub open spec fn precommits_item(precommits: Seq<WireSigned<Precommit>>, i: int) -> ItemView {
    signed_precommit_items(precommits[i / 25])[i % 25]
}

/// The items of the signed precommits `precommits`: their number, then 25
/// words for each.
pub open spec fn precommits_items(precommits: Seq<WireSigned<Precommit>>) -> Seq<ItemView> {
    seq![word(precommits.len() as int)] + Seq::new(
        25 * precommits.len(),
        |i: int| precommits_item(precommits, i),
    )
}

/// Whether the 25 items at `i` of `items` are a signed precommit.
pub open spec fn is_signed_precommit_at(items: Seq<ItemView>, i: int) -> bool {
    are_words(items, i, i + 12) && is_precommit_at(items, i + 12)
}

/// Whether the `j`-th signed precommit of a catch-up payload is there in
/// `items`.
pub open spec fn precommit_ok(items: Seq<ItemView>, j: int) -> bool {
    is_signed_precommit_at(items, 25 + 25 * j)
}

/// The signed precommit that the 25 words at `i` of `items` make.
pub open spec fn signed_precommit_at(items: Seq<ItemView>, i: int) -> WireSigned<Precommit> {
    WireSigned {
        author: key_at(items, i),
        signature: signature_at(items, i + 4),
        payload: precommit_at(items, i + 12),
    }
}

/// The items of the signed transaction `tx`: the key of the author, the
/// signature, the service, the body; 14 items.
pub open spec fn signed_tx_items(tx: WireSigned<TxView>) -> Seq<ItemView> {
    key_items(tx.author) + signature_items(tx.signature) + seq![
        word(tx.payload.service_id as int),
        ItemView::Bytes(tx.payload.payload),
    ]
}

/// The item at `i` of the row of the signed transactions `txs`, laid one
/// after another.
pub open spec fn txs_item(txs: Seq<WireSigned<TxView>>, i: int) -> ItemView {
    signed_tx_items(txs[i / 14])[i % 14]
}

/// Whether the 14 items at `i` of `items` are a signed transaction.
pub open spec fn is_signed_tx_at(items: Seq<ItemView>, i: int) -> bool {
    &&& are_words(items, i, i + 13)
    &&& word_at(items, i + 12) <= u16::MAX
    &&& i + 14 <= items.len()
    &&& items[i + 13] is Bytes
}

/// Whether the `j`-th signed transaction of an answer with transactions is
/// there in `items`.
pub open spec fn tx_ok(items: Seq<ItemView>, j: int) -> bool {
    is_signed_tx_at(items, 6 + 14 * j)
}

/// The signed transaction that the 14 items at `i` of `items` make.
pub open spec fn signed_tx_at(items: Seq<ItemView>, i: int) -> WireSigned<TxView> {
    WireSigned {
        author: key_at(items, i),
        signature: signature_at(items, i + 4),
        payload: TxView {
            service_id: word_at(items, i + 12) as u16,
            payload: bytes_at(items, i + 13),
        },
    }
}

/// The items of an address advertisement.
#[verifier::opaque]
pub open spec fn connect_items(c: WireConnect) -> Seq<ItemView> {
    seq![
        word(0),
        ItemView::Bytes(vstd::utf8::encode_utf8(c.pub_addr)),
        word(seconds_word(c.time.secs) as int),
        word(c.time.nanos as int),
        ItemView::Bytes(vstd::utf8::encode_utf8(c.user_agent)),
    ]
}

/// The items of a progress beacon.
#[verifier::opaque]
pub open spec fn status_items(s: Status) -> Seq<ItemView> {
    seq![word(1), word(s.height.0 as int)] + hash_items(s.last_hash)
}

/// The items of a block nomination.
#[verifier::opaque]
pub open spec fn propose_items(p: ProposeView) -> Seq<ItemView> {
    seq![word(2), word(p.validator.0 as int), word(p.height.0 as int), word(p.round.0 as int)]
        + hash_items(p.prev_hash) + hashes_items(p.transactions)
}

/// The items of a first vote.
#[verifier::opaque]
pub open spec fn prevote_items(p: Prevote) -> Seq<ItemView> {
    seq![word(3), word(p.validator.0 as int), word(p.height.0 as int), word(p.round.0 as int)]
        + hash_items(p.propose_hash) + seq![word(p.locked_round.0 as int)]
}

/// The items of a transaction.
#[verifier::opaque]
pub open spec fn transaction_items(t: TxView) -> Seq<ItemView> {
    seq![word(5), word(t.service_id as int), ItemView::Bytes(t.payload)]
}

/// The items of a catch-up payload.
#[verifier::opaque]
pub open spec fn block_response_items(b: WireBlockResponse) -> Seq<ItemView> {
    seq![word(6)] + key_items(b.to) + seq![
        word(b.block.proposer_id.0 as int),
        word(b.block.height.0 as int),
        word(b.block.tx_count as int),
    ] + hash_items(b.block.prev_hash) + hash_items(b.block.tx_hash) + hash_items(
        b.block.state_hash,
    ) + hash_items(b.block_hash) + precommits_items(b.precommits) + hashes_items(b.transactions)
}

/// The items of an answer with transactions.
#[verifier::opaque]
pub open spec fn transactions_response_items(to: PublicKey, txs: Seq<WireSigned<TxView>>) -> Seq<
    ItemView,
> {
    seq![word(7)] + key_items(to) + seq![word(txs.len() as int)] + Seq::new(
        14 * txs.len(),
        |i: int| txs_item(txs, i),
    )
}

/// The items of a request for transactions.
#[verifier::opaque]
pub open spec fn transactions_request_items(to: PublicKey, txs: Seq<crypto::Hash>) -> Seq<ItemView> {
    seq![word(8)] + key_items(to) + hashes_items(txs)
}

/// The items of a request for a propose.
#[verifier::opaque]
pub open spec fn propose_request_items(r: ProposeRequest) -> Seq<ItemView> {
    seq![word(9)] + key_items(r.to) + seq![word(r.height.0 as int)] + hash_items(r.propose_hash)
}

/// The items of a request for prevotes.
#[verifier::opaque]
pub open spec fn prevotes_request_items(r: PrevotesRequest) -> Seq<ItemView> {
    seq![word(10)] + key_items(r.to) + seq![word(r.height.0 as int), word(r.round.0 as int)]
        + hash_items(r.propose_hash)
}

/// The items of the content `p`: the number of its kind, then its fields in
/// the order in which they are declared.
pub open spec fn payload_items(p: WirePayload) -> Seq<ItemView> {
    match p {
        WirePayload::Connect(c) => connect_items(c),
        WirePayload::Status(s) => status_items(s),
        WirePayload::Propose(p) => propose_items(p),
        WirePayload::Prevote(p) => prevote_items(p),
        WirePayload::Precommit(p) => seq![word(4)] + precommit_items(p),
        WirePayload::Transaction(t) => transaction_items(t),
        WirePayload::BlockResponse(b) => block_response_items(b),
        WirePayload::TransactionsResponse(to, txs) => transactions_response_items(to, txs),
        WirePayload::TransactionsRequest(to, txs) => transactions_request_items(to, txs),
        WirePayload::ProposeRequest(r) => propose_request_items(r),
        WirePayload::PrevotesRequest(r) => prevotes_request_items(r),
        WirePayload::PeersRequest(r) => seq![word(11)] + key_items(r.to),
        WirePayload::BlockRequest(r) => seq![word(12)] + key_items(r.to) + seq![
            word(r.height.0 as int),
        ],
    }
}

/// Whether the content `p` can be written: its lists and strings are no
/// longer than a word can tell.
pub open spec fn payload_fits(p: WirePayload) -> bool {
    match p {
        WirePayload::Connect(c) => vstd::utf8::encode_utf8(c.pub_addr).len() <= u64::MAX
            && vstd::utf8::encode_utf8(c.user_agent).len() <= u64::MAX,
        WirePayload::Propose(p) => p.transactions.len() <= u64::MAX,
        WirePayload::Transaction(t) => t.payload.len() <= u64::MAX,
        WirePayload::BlockResponse(b) => b.precommits.len() <= u64::MAX && b.transactions.len()
            <= u64::MAX,
        WirePayload::TransactionsResponse(_, txs) => txs.len() <= u64::MAX && forall|i: int|
            0 <= i < txs.len() ==> (#[trigger] txs[i]).payload.payload.len() <= u64::MAX,
        WirePayload::TransactionsRequest(_, txs) => txs.len() <= u64::MAX,
        _ => true,
    }
}

/// The content that `items` are the items of, if they are the items of
/// an address advertisement.
#[verifier::opaque]
pub open spec fn connect_of(items: Seq<ItemView>) -> Option<WirePayload> {
    if items.len() == 5 && items[1] is Bytes && are_words(items, 2, 4) && word_at(items, 3)
        <= u32::MAX && items[4] is Bytes && vstd::utf8::valid_utf8(bytes_at(items, 1))
        && vstd::utf8::valid_utf8(bytes_at(items, 4)) {
        Some(
            WirePayload::Connect(
                WireConnect {
                    pub_addr: vstd::utf8::decode_utf8(bytes_at(items, 1)),
                    time: Timestamp {
                        secs: word_seconds(word_at(items, 2)),
                        nanos: word_at(items, 3) as u32,
                    },
                    user_agent: vstd::utf8::decode_utf8(bytes_at(items, 4)),
                },
            ),
        )
    } else {
        None
    }
}

/// The content that `items` are the items of, if they are the items of
/// a progress beacon.
#[verifier::opaque]
pub open spec fn status_of(items: Seq<ItemView>) -> Option<WirePayload> {
    if items.len() == 6 && are_words(items, 1, 6) {
        Some(
            WirePayload::Status(
                Status { height: Height(word_at(items, 1)), last_hash: hash_at(items, 2) },
            ),
        )
    } else {
        None
    }
}

/// The content that `items` are the items of, if they are the items of
/// a block nomination.
#[verifier::opaque]
pub open spec fn propose_of(items: Seq<ItemView>) -> Option<WirePayload> {
    if are_words(items, 1, 8) && word_at(items, 1) <= u16::MAX && word_at(items, 3)
        <= u32::MAX && are_hashes_at(items, 8) {
        Some(
            WirePayload::Propose(
                ProposeView {
                    validator: ValidatorId(word_at(items, 1) as u16),
                    height: Height(word_at(items, 2)),
                    round: Round(word_at(items, 3) as u32),
                    prev_hash: hash_at(items, 4),
                    transactions: hashes_at(items, 8),
                },
            ),
        )
    } else {
        None
    }
}

/// The content that `items` are the items of, if they are the items of
/// a first vote.
#[verifier::opaque]
pub open spec fn prevote_of(items: Seq<ItemView>) -> Option<WirePayload> {
    if items.len() == 9 && are_words(items, 1, 9) && word_at(items, 1) <= u16::MAX
        && word_at(items, 3) <= u32::MAX && word_at(items, 8) <= u32::MAX {
        Some(
            WirePayload::Prevote(
                Prevote {
                    validator: ValidatorId(word_at(items, 1) as u16),
                    height: Height(word_at(items, 2)),
                    round: Round(word_at(items, 3) as u32),
                    propose_hash: hash_at(items, 4),
                    locked_round: Round(word_at(items, 8) as u32),
                },
            ),
        )
    } else {
        None
    }
}

/// The content that `items` are the items of, if they are the items of
/// a second vote.
#[verifier::opaque]
pub open spec fn precommit_payload_of(items: Seq<ItemView>) -> Option<WirePayload> {
    if items.len() == 14 && is_precommit_at(items, 1) {
        Some(WirePayload::Precommit(precommit_at(items, 1)))
    } else {
        None
    }
}

/// The content that `items` are the items of, if they are the items of
/// a transaction.
#[verifier::opaque]
pub open spec fn transaction_of(items: Seq<ItemView>) -> Option<WirePayload> {
    if items.len() == 3 && items[1] is Word && word_at(items, 1) <= u16::MAX
        && items[2] is Bytes {
        Some(
            WirePayload::Transaction(
                TxView {
                    service_id: word_at(items, 1) as u16,
                    payload: bytes_at(items, 2),
                },
            ),
        )
    } else {
        None
    }
}

/// The content that `items` are the items of, if they are the items of
/// a catch-up payload.
#[verifier::opaque]
pub open spec fn block_response_of(items: Seq<ItemView>) -> Option<WirePayload> {
    if are_words(items, 1, 25) && word_at(items, 5) <= u16::MAX && word_at(items, 7)
        <= u32::MAX && 25 + 25 * word_at(items, 24) < items.len() && (forall|j: int|
        0 <= j < word_at(items, 24) ==> #[trigger] precommit_ok(items, j)) && are_hashes_at(items, 25 + 25 * word_at(items, 24)) {
        Some(
            WirePayload::BlockResponse(
                WireBlockResponse {
                    to: key_at(items, 1),
                    block: Block {
                        proposer_id: ValidatorId(word_at(items, 5) as u16),
                        height: Height(word_at(items, 6)),
                        tx_count: word_at(items, 7) as u32,
                        prev_hash: hash_at(items, 8),
                        tx_hash: hash_at(items, 12),
                        state_hash: hash_at(items, 16),
                    },
                    block_hash: hash_at(items, 20),
                    precommits: Seq::new(
                        word_at(items, 24) as nat,
                        |j: int| signed_precommit_at(items, 25 + 25 * j),
                    ),
                    transactions: hashes_at(items, 25 + 25 * word_at(items, 24)),
                },
            ),
        )
    } else {
        None
    }
}

/// The content that `items` are the items of, if they are the items of
/// an answer with transactions.
#[verifier::opaque]
pub open spec fn transactions_response_of(items: Seq<ItemView>) -> Option<WirePayload> {
    if are_words(items, 1, 6) && items.len() == 6 + 14 * word_at(items, 5) && (forall|
        j: int,
    |
        0 <= j < word_at(items, 5) ==> #[trigger] tx_ok(items, j)) {
        Some(
            WirePayload::TransactionsResponse(
                key_at(items, 1),
                Seq::new(
                    word_at(items, 5) as nat,
                    |j: int| signed_tx_at(items, 6 + 14 * j),
                ),
            ),
        )
    } else {
        None
    }
}

/// The content that `items` are the items of, if they are the items of
/// a request for transactions.
#[verifier::opaque]
pub open spec fn transactions_request_of(items: Seq<ItemView>) -> Option<WirePayload> {
    if are_words(items, 1, 5) && are_hashes_at(items, 5) {
        Some(WirePayload::TransactionsRequest(key_at(items, 1), hashes_at(items, 5)))
    } else {
        None
    }
}

/// The content that `items` are the items of, if they are the items of
/// a request for a propose.
#[verifier::opaque]
pub open spec fn propose_request_of(items: Seq<ItemView>) -> Option<WirePayload> {
    if items.len() == 10 && are_words(items, 1, 10) {
        Some(
            WirePayload::ProposeRequest(
                ProposeRequest {
                    to: key_at(items, 1),
                    height: Height(word_at(items, 5)),
                    propose_hash: hash_at(items, 6),
                },
            ),
        )
    } else {
        None
    }
}

/// The content that `items` are the items of, if they are the items of
/// a request for prevotes.
#[verifier::opaque]
pub open spec fn prevotes_request_of(items: Seq<ItemView>) -> Option<WirePayload> {
    if items.len() == 11 && are_words(items, 1, 11) && word_at(items, 6) <= u32::MAX {
        Some(
            WirePayload::PrevotesRequest(
                PrevotesRequest {
                    to: key_at(items, 1),
                    height: Height(word_at(items, 5)),
                    round: Round(word_at(items, 6) as u32),
                    propose_hash: hash_at(items, 7),
                },
            ),
        )
    } else {
        None
    }
}

/// The content that `items` are the items of, if they are the items of
/// a request for peers.
#[verifier::opaque]
pub open spec fn peers_request_of(items: Seq<ItemView>) -> Option<WirePayload> {
    if items.len() == 5 && are_words(items, 1, 5) {
        Some(WirePayload::PeersRequest(PeersRequest { to: key_at(items, 1) }))
    } else {
        None
    }
}

/// The content that `items` are the items of, if they are the items of
/// a request for a block.
#[verifier::opaque]
pub open spec fn block_request_of(items: Seq<ItemView>) -> Option<WirePayload> {
    if items.len() == 6 && are_words(items, 1, 6) {
        Some(
            WirePayload::BlockRequest(
                BlockRequest { to: key_at(items, 1), height: Height(word_at(items, 5)) },
            ),
        )
    } else {
        None
    }
}

/// The content that `items` are the items of, if they are the items of a
/// content.
pub open spec fn payload_of(items: Seq<ItemView>) -> Option<WirePayload> {
    if items.len() == 0 || !(items[0] is Word) {
        None
    } else {
        let kind = word_at(items, 0);
        if kind == 0 {
            connect_of(items)
        } else if kind == 1 {
            status_of(items)
        } else if kind == 2 {
            propose_of(items)
        } else if kind == 3 {
            prevote_of(items)
        } else if kind == 4 {
            precommit_payload_of(items)
        } else if kind == 5 {
            transaction_of(items)
        } else if kind == 6 {
            block_response_of(items)
        } else if kind == 7 {
            transactions_response_of(items)
        } else if kind == 8 {
            transactions_request_of(items)
        } else if kind == 9 {
            propose_request_of(items)
        } else if kind == 10 {
            prevotes_request_of(items)
        } else if kind == 11 {
            peers_request_of(items)
        } else if kind == 12 {
            block_request_of(items)
        } else {
            None
        }
    }
}

/// The items of the message `m`: the key of the author, the signature, the
/// content.
pub open spec fn message_items(m: WireSigned<WirePayload>) -> Seq<ItemView> {
    key_items(m.author) + signature_items(m.signature) + payload_items(m.payload)
}

/// The message that `items` are the items of, if they are the items of a
/// message.
pub open spec fn message_of(items: Seq<ItemView>) -> Option<WireSigned<WirePayload>> {
    if are_words(items, 0, 12) {
        match payload_of(items.skip(12)) {
            Some(payload) => Some(
                WireSigned {
                    author: key_at(items, 0),
                    signature: signature_at(items, 4),
                    payload,
                },
            ),
            None => None,
        }
    } else {
        None
    }
}

/// Seconds and their word stand for each other.
pub proof fn lemma_seconds_word(secs: i64, w: u64)
    ensures
        word_seconds(seconds_word(secs)) == secs,
        seconds_word(word_seconds(w)) == w,
{
}

/// The items written for an address advertisement are read as it.
proof fn lemma_connect_written(c: WireConnect)
    requires
        payload_fits(WirePayload::Connect(c)),
    ensures
        connect_of(connect_items(c)) == Some(WirePayload::Connect(c)),
{
    reveal(connect_items);
    reveal(connect_of);
    lemma_seconds_word(c.time.secs, 0);
    vstd::utf8::encode_utf8_valid_utf8(c.pub_addr);
    vstd::utf8::encode_utf8_decode_utf8(c.pub_addr);
    vstd::utf8::encode_utf8_valid_utf8(c.user_agent);
    vstd::utf8::encode_utf8_decode_utf8(c.user_agent);
}

/// The items written for a block nomination are read as it.
proof fn lemma_propose_written(q: ProposeView)
    requires
        payload_fits(WirePayload::Propose(q)),
    ensures
        propose_of(propose_items(q)) == Some(WirePayload::Propose(q)),
{
    reveal(propose_items);
    reveal(propose_of);
    let items = propose_items(q);
    assert(are_hashes_at(items, 8));
    assert(hashes_at(items, 8) =~= q.transactions) by {
        assert forall|j: int| 0 <= j < q.transactions.len() implies hash_at(items, 8 + 1 + 4 * j)
            == q.transactions[j] by {
            lemma_hash_in_list(items, 8, q.transactions, j);
        }
    }
}

/// The items written for a second vote are read as it.
proof fn lemma_precommit_written(q: Precommit)
    ensures
        precommit_payload_of(seq![word(4)] + precommit_items(q)) == Some(
            WirePayload::Precommit(q),
        ),
{
    reveal(precommit_payload_of);
    lemma_seconds_word(q.time.secs, 0);
}

/// The items written for a catch-up payload are read as it.
#[verifier::rlimit(100)]
proof fn lemma_block_response_written(b: WireBlockResponse)
    requires
        payload_fits(WirePayload::BlockResponse(b)),
    ensures
        block_response_of(block_response_items(b)) == Some(WirePayload::BlockResponse(b)),
{
    reveal(block_response_items);
    reveal(block_response_of);
    let items = block_response_items(b);
    let n = b.precommits.len() as int;
    let at = 25 + 25 * n;
    assert(word_at(items, 24) == n);
    assert forall|j: int| 0 <= j < n implies #[trigger] precommit_ok(items, j)
        && signed_precommit_at(items, 25 + 25 * j) == b.precommits[j] by {
        lemma_precommit_in_list(items, 25, b.precommits, j);
    }
    assert(are_hashes_at(items, at));
    assert(hashes_at(items, at) =~= b.transactions) by {
        assert forall|j: int| 0 <= j < b.transactions.len() implies hash_at(
            items,
            at + 1 + 4 * j,
        ) == b.transactions[j] by {
            lemma_hash_in_list(items, at, b.transactions, j);
        }
    }
    assert(Seq::new(n as nat, |j: int| signed_precommit_at(items, 25 + 25 * j))
        =~= b.precommits);
}

/// The items written for an answer with transactions are read as it.
proof fn lemma_transactions_response_written(to: PublicKey, txs: Seq<WireSigned<TxView>>)
    requires
        payload_fits(WirePayload::TransactionsResponse(to, txs)),
    ensures
        transactions_response_of(transactions_response_items(to, txs)) == Some(
            WirePayload::TransactionsResponse(to, txs),
        ),
{
    reveal(transactions_response_items);
    reveal(transactions_response_of);
    let items = transactions_response_items(to, txs);
    let n = txs.len() as int;
    assert forall|j: int| 0 <= j < n implies #[trigger] tx_ok(items, j) && signed_tx_at(
        items,
        6 + 14 * j,
    ) == txs[j] by {
        lemma_tx_in_list(items, 6, txs, j);
    }
    assert(Seq::new(n as nat, |j: int| signed_tx_at(items, 6 + 14 * j)) =~= txs);
}

/// The items written for a request for transactions are read as it.
proof fn lemma_transactions_request_written(to: PublicKey, txs: Seq<crypto::Hash>)
    requires
        payload_fits(WirePayload::TransactionsRequest(to, txs)),
    ensures
        transactions_request_of(transactions_request_items(to, txs)) == Some(
            WirePayload::TransactionsRequest(to, txs),
        ),
{
    reveal(transactions_request_items);
    reveal(transactions_request_of);
    let items = transactions_request_items(to, txs);
    assert(are_hashes_at(items, 5));
    assert(hashes_at(items, 5) =~= txs) by {
        assert forall|j: int| 0 <= j < txs.len() implies hash_at(items, 5 + 1 + 4 * j)
            == txs[j] by {
            lemma_hash_in_list(items, 5, txs, j);
        }
    }
}

/// The items written for a content are read as that content.
pub proof fn lemma_payload_written_is_read(p: WirePayload)
    requires
        payload_fits(p),
    ensures
        payload_of(payload_items(p)) == Some(p),
{
    reveal(connect_items);
    reveal(status_items);
    reveal(propose_items);
    reveal(prevote_items);
    reveal(transaction_items);
    reveal(block_response_items);
    reveal(transactions_response_items);
    reveal(transactions_request_items);
    reveal(propose_request_items);
    reveal(prevotes_request_items);
    reveal(status_of);
    reveal(prevote_of);
    reveal(transaction_of);
    reveal(propose_request_of);
    reveal(prevotes_request_of);
    reveal(peers_request_of);
    reveal(block_request_of);
    match p {
        WirePayload::Connect(c) => {
            lemma_connect_written(c);
        },
        WirePayload::Status(s) => {},
        WirePayload::Propose(q) => {
            lemma_propose_written(q);
        },
        WirePayload::Prevote(q) => {},
        WirePayload::Precommit(q) => {
            lemma_precommit_written(q);
        },
        WirePayload::Transaction(t) => {},
        WirePayload::BlockResponse(b) => {
            lemma_block_response_written(b);
        },
        WirePayload::TransactionsResponse(to, txs) => {
            lemma_transactions_response_written(to, txs);
        },
        WirePayload::TransactionsRequest(to, txs) => {
            lemma_transactions_request_written(to, txs);
        },
        WirePayload::ProposeRequest(r) => {},
        WirePayload::PrevotesRequest(r) => {},
        WirePayload::PeersRequest(r) => {},
        WirePayload::BlockRequest(r) => {},
    }
}

/// A digest of a list of digests is found at its place in the row.
proof fn lemma_hash_in_list(items: Seq<ItemView>, at: int, hashes: Seq<crypto::Hash>, j: int)
    requires
        0 <= at,
        items.len() >= at + 1 + 4 * hashes.len(),
        forall|i: int|
            0 <= i < 1 + 4 * hashes.len() ==> #[trigger] items[at + i] == hashes_items(hashes)[i],
        0 <= j < hashes.len(),
    ensures
        hash_at(items, at + 1 + 4 * j) == hashes[j],
{
    let row = hashes_items(hashes);
    assert(items[at + (1 + 4 * j)] == row[1 + 4 * j]);
    assert(items[at + (2 + 4 * j)] == row[2 + 4 * j]);
    assert(items[at + (3 + 4 * j)] == row[3 + 4 * j]);
    assert(items[at + (4 + 4 * j)] == row[4 + 4 * j]);
}

/// A signed precommit of a list is found at its place in the row.
proof fn lemma_precommit_in_list(
    items: Seq<ItemView>,
    at: int,
    precommits: Seq<WireSigned<Precommit>>,
    j: int,
)
    requires
        0 <= at,
        items.len() >= at + 25 * precommits.len(),
        forall|i: int|
            0 <= i < 25 * precommits.len() ==> #[trigger] items[at + i] == precommits_item(
                precommits,
                i,
            ),
        0 <= j < precommits.len(),
    ensures
        is_signed_precommit_at(items, at + 25 * j),
        signed_precommit_at(items, at + 25 * j) == precommits[j],
{
    let p = precommits[j];
    let row = signed_precommit_items(p);
    lemma_seconds_word(p.payload.time.secs, 0);
    assert forall|k: int| 0 <= k < 25 implies items[at + 25 * j + k] == row[k] by {
        assert(items[at + (25 * j + k)] == precommits_item(precommits, 25 * j + k));
        assert((25 * j + k) / 25 == j && (25 * j + k) % 25 == k);
    }
    assert(items[at + 25 * j + 0] == row[0]);
    assert(items[at + 25 * j + 1] == row[1]);
    assert(items[at + 25 * j + 2] == row[2]);
    assert(items[at + 25 * j + 3] == row[3]);
    assert(items[at + 25 * j + 4] == row[4]);
    assert(items[at + 25 * j + 5] == row[5]);
    assert(items[at + 25 * j + 6] == row[6]);
    assert(items[at + 25 * j + 7] == row[7]);
    assert(items[at + 25 * j + 8] == row[8]);
    assert(items[at + 25 * j + 9] == row[9]);
    assert(items[at + 25 * j + 10] == row[10]);
    assert(items[at + 25 * j + 11] == row[11]);
    assert(items[at + 25 * j + 12] == row[12]);
    assert(items[at + 25 * j + 13] == row[13]);
    assert(items[at + 25 * j + 14] == row[14]);
    assert(items[at + 25 * j + 15] == row[15]);
    assert(items[at + 25 * j + 16] == row[16]);
    assert(items[at + 25 * j + 17] == row[17]);
    assert(items[at + 25 * j + 18] == row[18]);
    assert(items[at + 25 * j + 19] == row[19]);
    assert(items[at + 25 * j + 20] == row[20]);
    assert(items[at + 25 * j + 21] == row[21]);
    assert(items[at + 25 * j + 22] == row[22]);
    assert(items[at + 25 * j + 23] == row[23]);
    assert(items[at + 25 * j + 24] == row[24]);
}

/// A signed transaction of a list is found at its place in the row.
proof fn lemma_tx_in_list(items: Seq<ItemView>, at: int, txs: Seq<WireSigned<TxView>>, j: int)
    requires
        0 <= at,
        items.len() >= at + 14 * txs.len(),
        forall|i: int| 0 <= i < 14 * txs.len() ==> #[trigger] items[at + i] == txs_item(txs, i),
        0 <= j < txs.len(),
    ensures
        is_signed_tx_at(items, at + 14 * j),
        signed_tx_at(items, at + 14 * j) == txs[j],
{
    let t = txs[j];
    let row = signed_tx_items(t);
    assert forall|k: int| 0 <= k < 14 implies items[at + 14 * j + k] == row[k] by {
        assert(items[at + (14 * j + k)] == txs_item(txs, 14 * j + k));
        assert((14 * j + k) / 14 == j && (14 * j + k) % 14 == k);
    }
    assert(items[at + 14 * j + 0] == row[0]);
    assert(items[at + 14 * j + 1] == row[1]);
    assert(items[at + 14 * j + 2] == row[2]);
    assert(items[at + 14 * j + 3] == row[3]);
    assert(items[at + 14 * j + 4] == row[4]);
    assert(items[at + 14 * j + 5] == row[5]);
    assert(items[at + 14 * j + 6] == row[6]);
    assert(items[at + 14 * j + 7] == row[7]);
    assert(items[at + 14 * j + 8] == row[8]);
    assert(items[at + 14 * j + 9] == row[9]);
    assert(items[at + 14 * j + 10] == row[10]);
    assert(items[at + 14 * j + 11] == row[11]);
    assert(items[at + 14 * j + 12] == row[12]);
    assert(items[at + 14 * j + 13] == row[13]);
}

/// Words that are read as a list of digests are the words of that list.
proof fn lemma_hashes_read(items: Seq<ItemView>, at: int)
    requires
        are_hashes_at(items, at),
    ensures
        hashes_items(hashes_at(items, at)) == items.skip(at),
        hashes_at(items, at).len() <= u64::MAX,
{
    let hashes = hashes_at(items, at);
    let row = hashes_items(hashes);
    let tail = items.skip(at);
    assert(row.len() == tail.len());
    assert forall|i: int| 0 <= i < row.len() implies row[i] == tail[i] by {
        assert(items[at + i] is Word);
        if i > 0 {
            let k = i - 1;
            assert(row[i] == hashes_item(hashes, k));
            assert(hashes[k / 4] == hash_at(items, at + 1 + 4 * (k / 4)));
            assert(at + 1 + 4 * (k / 4) + k % 4 == at + i);
        }
    }
    assert(row =~= tail);
}

/// Words that are read as a precommit are the words of that precommit.
proof fn lemma_precommit_read(items: Seq<ItemView>, at: int)
    requires
        is_precommit_at(items, at),
    ensures
        precommit_items(precommit_at(items, at)) == items.subrange(at, at + 13),
{
    lemma_seconds_word(0, word_at(items, at + 11));
    let row = precommit_items(precommit_at(items, at));
    let part = items.subrange(at, at + 13);
    assert forall|i: int| 0 <= i < 13 implies row[i] == part[i] by {
        assert(items[at + i] is Word);
    }
    assert(row =~= part);
}

/// Words that are read as a signed precommit are the words of that signed
/// precommit.
proof fn lemma_signed_precommit_read(items: Seq<ItemView>, at: int)
    requires
        is_signed_precommit_at(items, at),
    ensures
        signed_precommit_items(signed_precommit_at(items, at)) == items.subrange(at, at + 25),
{
    lemma_precommit_read(items, at + 12);
    let row = signed_precommit_items(signed_precommit_at(items, at));
    let part = items.subrange(at, at + 25);
    assert forall|i: int| 0 <= i < 25 implies row[i] == part[i] by {
        if i < 12 {
            assert(items[at + i] is Word);
        } else {
            assert(row[i] == precommit_items(precommit_at(items, at + 12))[i - 12]);
            assert(items.subrange(at + 12, at + 25)[i - 12] == items[at + i]);
        }
    }
    assert(row =~= part);
}

/// Items that are read as a signed transaction are the items of that
/// signed transaction.
proof fn lemma_signed_tx_read(items: Seq<ItemView>, at: int)
    requires
        is_signed_tx_at(items, at),
    ensures
        signed_tx_items(signed_tx_at(items, at)) == items.subrange(at, at + 14),
{
    let row = signed_tx_items(signed_tx_at(items, at));
    let part = items.subrange(at, at + 14);
    assert forall|i: int| 0 <= i < 14 implies row[i] == part[i] by {
        if i < 13 {
            assert(items[at + i] is Word);
        }
    }
    assert(row =~= part);
}

/// Items that are read as an address advertisement are its items.
proof fn lemma_connect_read(items: Seq<ItemView>)
    requires
        items.len() > 0,
        items[0] == word(0),
        connect_of(items) is Some,
    ensures
        payload_items(connect_of(items)->0) == items,
{
    reveal(connect_items);
    reveal(connect_of);
    lemma_seconds_word(0, word_at(items, 2));
    vstd::utf8::decode_utf8_encode_utf8(bytes_at(items, 1));
    vstd::utf8::decode_utf8_encode_utf8(bytes_at(items, 4));
    assert(items[2] is Word && items[3] is Word);
    assert(payload_items(connect_of(items)->0) =~= items);
}

/// Items that are read as a block nomination are its items.
proof fn lemma_propose_read(items: Seq<ItemView>)
    requires
        items.len() > 0,
        items[0] == word(2),
        propose_of(items) is Some,
    ensures
        payload_items(propose_of(items)->0) == items,
{
    reveal(propose_items);
    reveal(propose_of);
    lemma_hashes_read(items, 8);
    let row = payload_items(propose_of(items)->0);
    assert(row.len() == items.len());
    assert forall|i: int| 0 <= i < items.len() implies row[i] == items[i] by {
        if i < 8 {
            if i > 0 {
                assert(items[i] is Word);
            }
        } else {
            assert(row[i] == hashes_items(hashes_at(items, 8))[i - 8]);
            assert(items.skip(8)[i - 8] == items[i]);
        }
    }
    assert(row =~= items);
}

/// Items that are read as a second vote are its items.
proof fn lemma_precommit_payload_read(items: Seq<ItemView>)
    requires
        items.len() > 0,
        items[0] == word(4),
        precommit_payload_of(items) is Some,
    ensures
        payload_items(precommit_payload_of(items)->0) == items,
{
    reveal(precommit_payload_of);
    lemma_precommit_read(items, 1);
    let row = payload_items(precommit_payload_of(items)->0);
    assert forall|i: int| 0 <= i < items.len() implies row[i] == items[i] by {
        if i > 0 {
            assert(items.subrange(1, 14)[i - 1] == items[i]);
        }
    }
    assert(row =~= items);
}

/// Items that are read as a catch-up payload are its items.
#[verifier::rlimit(100)]
proof fn lemma_block_response_read(items: Seq<ItemView>)
    requires
        items.len() > 0,
        items[0] == word(6),
        block_response_of(items) is Some,
    ensures
        payload_items(block_response_of(items)->0) == items,
{
    reveal(block_response_items);
    reveal(block_response_of);
    let n = word_at(items, 24) as int;
    let at = 25 + 25 * n;
    let b = block_response_of(items)->0->BlockResponse_0;
    lemma_hashes_read(items, at);
    let row = block_response_items(b);
    assert(b.precommits.len() == n);
    assert(row.len() == items.len());
    assert forall|i: int| 0 <= i < items.len() implies row[i] == items[i] by {
        if i < 25 {
            if i > 0 {
                assert(items[i] is Word);
            }
            if i == 24 {
                assert(row[i] == precommits_items(b.precommits)[0]);
            }
        } else if i < at {
            let k = i - 25;
            let j = k / 25;
            assert(0 <= j < n);
            assert(row[i] == precommits_items(b.precommits)[k + 1]);
            assert(row[i] == precommits_item(b.precommits, k));
            assert(precommit_ok(items, j));
            lemma_signed_precommit_read(items, 25 + 25 * j);
            assert(b.precommits[j] == signed_precommit_at(items, 25 + 25 * j));
            assert(items.subrange(25 + 25 * j, 25 + 25 * j + 25)[k % 25] == items[i]);
        } else {
            assert(row[i] == hashes_items(b.transactions)[i - at]);
            assert(items.skip(at)[i - at] == items[i]);
        }
    }
    assert(row =~= items);
}

/// Items that are read as an answer with transactions are its items.
proof fn lemma_transactions_response_read(items: Seq<ItemView>)
    requires
        items.len() > 0,
        items[0] == word(7),
        transactions_response_of(items) is Some,
    ensures
        payload_items(transactions_response_of(items)->0) == items,
{
    reveal(transactions_response_items);
    reveal(transactions_response_of);
    let n = word_at(items, 5) as int;
    let txs = Seq::new(n as nat, |j: int| signed_tx_at(items, 6 + 14 * j));
    let row = transactions_response_items(key_at(items, 1), txs);
    assert(row.len() == items.len());
    assert forall|i: int| 0 <= i < items.len() implies row[i] == items[i] by {
        if i < 6 {
            if i > 0 {
                assert(items[i] is Word);
            }
        } else {
            let k = i - 6;
            let j = k / 14;
            assert(0 <= j < n);
            assert(row[i] == txs_item(txs, k));
            assert(tx_ok(items, j));
            lemma_signed_tx_read(items, 6 + 14 * j);
            assert(items.subrange(6 + 14 * j, 6 + 14 * j + 14)[k % 14] == items[i]);
        }
    }
    assert(row =~= items);
}

/// Items that are read as a request for transactions are its items.
proof fn lemma_transactions_request_read(items: Seq<ItemView>)
    requires
        items.len() > 0,
        items[0] == word(8),
        transactions_request_of(items) is Some,
    ensures
        payload_items(transactions_request_of(items)->0) == items,
{
    reveal(transactions_request_items);
    reveal(transactions_request_of);
    lemma_hashes_read(items, 5);
    let row = payload_items(transactions_request_of(items)->0);
    assert(row.len() == items.len());
    assert forall|i: int| 0 <= i < items.len() implies row[i] == items[i] by {
        if i < 5 {
            if i > 0 {
                assert(items[i] is Word);
            }
        } else {
            assert(row[i] == hashes_items(hashes_at(items, 5))[i - 5]);
            assert(items.skip(5)[i - 5] == items[i]);
        }
    }
    assert(row =~= items);
}

/// Items that are read as a content of one of the kinds of fixed length are
/// its items.
proof fn lemma_fixed_read(items: Seq<ItemView>)
    requires
        items.len() > 0,
        items[0] is Word,
        payload_of(items) is Some,
        word_at(items, 0) == 1 || word_at(items, 0) == 3 || word_at(items, 0) == 5 || word_at(
            items,
            0,
        ) >= 9,
    ensures
        payload_items(payload_of(items)->0) == items,
{
    reveal(status_items);
    reveal(status_of);
    reveal(prevote_items);
    reveal(prevote_of);
    reveal(transaction_items);
    reveal(transaction_of);
    reveal(propose_request_items);
    reveal(propose_request_of);
    reveal(prevotes_request_items);
    reveal(prevotes_request_of);
    reveal(peers_request_of);
    reveal(block_request_of);
    let row = payload_items(payload_of(items)->0);
    assert(row.len() == items.len());
    assert forall|i: int| 0 <= i < items.len() implies row[i] == items[i] by {
        if word_at(items, 0) != 5 {
            assert(items[i] is Word);
        }
    }
    assert(row =~= items);
}

/// What is read was written: items that are read as a content are the
/// items of that content, and the content can be written.
pub proof fn lemma_payload_read_is_written(items: Seq<ItemView>)
    requires
        payload_of(items) is Some,
        forall|i: int| 0 <= i < items.len() ==> crate::wire::writable(#[trigger] items[i]),
    ensures
        payload_items(payload_of(items)->0) == items,
        payload_fits(payload_of(items)->0),
{
    reveal(connect_of);
    reveal(status_of);
    reveal(propose_of);
    reveal(prevote_of);
    reveal(precommit_payload_of);
    reveal(transaction_of);
    reveal(block_response_of);
    reveal(transactions_response_of);
    reveal(transactions_request_of);
    reveal(propose_request_of);
    reveal(prevotes_request_of);
    reveal(peers_request_of);
    reveal(block_request_of);
    let kind = word_at(items, 0);
    if kind == 0 {
        lemma_connect_read(items);
        assert(crate::wire::writable(items[1]) && crate::wire::writable(items[4]));
        vstd::utf8::decode_utf8_encode_utf8(bytes_at(items, 1));
        vstd::utf8::decode_utf8_encode_utf8(bytes_at(items, 4));
    } else if kind == 2 {
        lemma_propose_read(items);
    } else if kind == 4 {
        lemma_precommit_payload_read(items);
    } else if kind == 6 {
        lemma_block_response_read(items);
    } else if kind == 7 {
        lemma_transactions_response_read(items);
        let n = word_at(items, 5) as int;
        assert forall|j: int| 0 <= j < n implies (#[trigger] signed_tx_at(
            items,
            6 + 14 * j,
        )).payload.payload.len() <= u64::MAX by {
            assert(tx_ok(items, j));
            assert(crate::wire::writable(items[6 + 14 * j + 13]));
        }
    } else if kind == 8 {
        lemma_transactions_request_read(items);
    } else {
        lemma_fixed_read(items);
        if kind == 5 {
            assert(crate::wire::writable(items[2]));
        }
    }
}

/// Whether every item of the row `items` can be written.
pub open spec fn all_writable(items: Seq<ItemView>) -> bool {
    forall|i: int| 0 <= i < items.len() ==> crate::wire::writable(#[trigger] items[i])
}

/// The items of a content that can be written can be written.
pub proof fn lemma_payload_items_writable(p: WirePayload)
    requires
        payload_fits(p),
    ensures
        all_writable(payload_items(p)),
{
    reveal(connect_items);
    reveal(status_items);
    reveal(propose_items);
    reveal(prevote_items);
    reveal(transaction_items);
    reveal(block_response_items);
    reveal(transactions_response_items);
    reveal(transactions_request_items);
    reveal(propose_request_items);
    reveal(prevotes_request_items);
    let items = payload_items(p);
    assert forall|i: int| 0 <= i < items.len() implies crate::wire::writable(
        #[trigger] items[i],
    ) by {
        match p {
            WirePayload::TransactionsResponse(to, txs) => {
                if i >= 6 {
                    let k = i - 6;
                    assert(items[i] == txs_item(txs, k));
                    assert(0 <= k / 14 < txs.len());
                }
            },
            _ => {},
        }
    }
}

/// The message as it is on the wire, in bytes.
pub open spec fn encoded(m: WireSigned<WirePayload>) -> Seq<u8> {
    crate::wire::items_bytes(message_items(m))
}

/// The message that `bytes` are the bytes of, if they are the bytes of a
/// message.
pub open spec fn decoded(bytes: Seq<u8>) -> Option<WireSigned<WirePayload>> {
    match crate::wire::items_of(bytes) {
        Some(items) => message_of(items),
        None => None,
    }
}

/// A row that begins with a key and a signature: the twelve words are
/// found again, and what follows them is the rest.
pub proof fn lemma_header(author: PublicKey, signature: Signature, rest: Seq<ItemView>)
    ensures
        are_words(key_items(author) + signature_items(signature) + rest, 0, 12),
        key_at(key_items(author) + signature_items(signature) + rest, 0) == author,
        signature_at(key_items(author) + signature_items(signature) + rest, 4) == signature,
        (key_items(author) + signature_items(signature) + rest).skip(12) == rest,
        all_writable(rest) ==> all_writable(key_items(author) + signature_items(signature) + rest),
{
    let items = key_items(author) + signature_items(signature) + rest;
    assert(items.skip(12) =~= rest);
    if all_writable(rest) {
        assert forall|i: int| 0 <= i < items.len() implies crate::wire::writable(
            #[trigger] items[i],
        ) by {
            if i >= 12 {
                assert(items[i] == rest[i - 12]);
            }
        }
    }
}

/// What is encoded can be decoded: the bytes of a message are decoded as
/// that message.
pub proof fn lemma_decode_encode(m: WireSigned<WirePayload>)
    requires
        payload_fits(m.payload),
    ensures
        decoded(encoded(m)) == Some(m),
{
    let items = message_items(m);
    lemma_payload_items_writable(m.payload);
    lemma_header(m.author, m.signature, payload_items(m.payload));
    crate::wire::lemma_written_is_read(items);
    lemma_payload_written_is_read(m.payload);
}

/// What is decoded was encoded: bytes that are decoded as a message are
/// the bytes of that message. With the law before, the messages that can be
/// written and the rows of bytes that can be decoded stand one for one.
pub proof fn lemma_encode_decode(bytes: Seq<u8>)
    requires
        decoded(bytes) is Some,
    ensures
        encoded(decoded(bytes)->0) == bytes,
        payload_fits(decoded(bytes)->0.payload),
{
    crate::wire::lemma_read_is_written(bytes);
    let items = crate::wire::items_of(bytes)->0;
    lemma_message_read_is_written(items);
}

/// Items that are read as a message are the items of that message, and
/// the message can be written.
pub proof fn lemma_message_read_is_written(items: Seq<ItemView>)
    requires
        message_of(items) is Some,
        all_writable(items),
    ensures
        message_items(message_of(items)->0) == items,
        payload_fits(message_of(items)->0.payload),
{
    let m = message_of(items)->0;
    let tail = items.skip(12);
    assert forall|i: int| 0 <= i < tail.len() implies crate::wire::writable(
        #[trigger] tail[i],
    ) by {
        assert(tail[i] == items[i + 12]);
    }
    lemma_payload_read_is_written(tail);
    let row = message_items(m);
    assert(row.len() == items.len());
    assert forall|i: int| 0 <= i < items.len() implies row[i] == items[i] by {
        if i < 12 {
            assert(items[i] is Word);
        } else {
            assert(row[i] == payload_items(m.payload)[i - 12]);
            assert(tail[i - 12] == items[i]);
        }
    }
    assert(row =~= items);
}

/// No two messages have the same bytes.
pub proof fn lemma_encoding_is_injective(a: WireSigned<WirePayload>, b: WireSigned<WirePayload>)
    requires
        payload_fits(a.payload),
        payload_fits(b.payload),
        encoded(a) == encoded(b),
    ensures
        a == b,
{
    lemma_decode_encode(a);
    lemma_decode_encode(b);
}

} // verus!
