//! Writing a message as bytes and reading it back.

use vstd::prelude::*;
use crate::blockchain::Block;
use crate::crypto::{self, PublicKey, Signature};
use crate::helpers::{Height, Round, ValidatorId};
use crate::messages::{
    BlockRequest, BlockResponse, Connect, Message, Payload, PayloadView, PeersRequest, Precommit,
    Prevote, Propose, ProposeRequest, PrevotesRequest, RawTransaction, Signed, SignedView, Status,
    Timestamp, TransactionsRequest, TransactionsResponse, TxView,
};
use crate::wire::messages::{are_hashes_at, are_words, block_response_items, block_response_of, bytes_at, connect_items, connect_of, decoded, encoded, hash_at, hash_items, hashes_at, hashes_item, hashes_items, is_precommit_at, key_at, precommit_ok, tx_ok, key_items, message_items, message_of, payload_items, payload_of, precommit_at, precommit_items, precommits_item, precommits_items, seconds_word, signature_at, signature_items, signed_precommit_at, signed_precommit_items, signed_tx_at, signed_tx_items, txs_item, word, word_at, word_seconds, WireBlockResponse, WireConnect, WirePayload, WireSigned};
use crate::wire::{items_view, read_items, write_items, Item, ItemView};

verus! {

/// The signed precommit `p` as it is on the wire.
pub open spec fn wire_precommit(p: Signed<Precommit>) -> WireSigned<Precommit> {
    WireSigned { author: p.author, signature: p.signature, payload: p.payload }
}

/// The signed transaction `t` as it is on the wire.
pub open spec fn wire_tx(t: SignedView<TxView>) -> WireSigned<TxView> {
    WireSigned { author: t.author, signature: t.signature, payload: t.payload }
}

/// The content `p` as it is on the wire.
pub open spec fn wire_payload(p: PayloadView) -> WirePayload {
    match p {
        PayloadView::Connect(c) => WirePayload::Connect(
            WireConnect { pub_addr: c.pub_addr@, time: c.time, user_agent: c.user_agent@ },
        ),
        PayloadView::Status(s) => WirePayload::Status(s),
        PayloadView::Propose(p) => WirePayload::Propose(p),
        PayloadView::Prevote(p) => WirePayload::Prevote(p),
        PayloadView::Precommit(p) => WirePayload::Precommit(p),
        PayloadView::Transaction(t) => WirePayload::Transaction(t),
        PayloadView::BlockResponse(b) => WirePayload::BlockResponse(
            WireBlockResponse {
                to: b.to,
                block: b.block,
                block_hash: b.block_hash,
                precommits: b.precommits.map_values(|p: Signed<Precommit>| wire_precommit(p)),
                transactions: b.transactions,
            },
        ),
        PayloadView::TransactionsResponse(to, txs) => WirePayload::TransactionsResponse(
            to,
            txs.map_values(|t: SignedView<TxView>| wire_tx(t)),
        ),
        PayloadView::TransactionsRequest(to, txs) => WirePayload::TransactionsRequest(to, txs),
        PayloadView::ProposeRequest(r) => WirePayload::ProposeRequest(r),
        PayloadView::PrevotesRequest(r) => WirePayload::PrevotesRequest(r),
        PayloadView::PeersRequest(r) => WirePayload::PeersRequest(r),
        PayloadView::BlockRequest(r) => WirePayload::BlockRequest(r),
    }
}

/// The message `m` as it is on the wire: without its digest and without
/// the digests of the messages that it holds.
pub open spec fn wire_message(m: SignedView<PayloadView>) -> WireSigned<WirePayload> {
    WireSigned { author: m.author, signature: m.signature, payload: wire_payload(m.payload) }
}

/// Whether the content `p` bears no digest of a message that it holds:
/// every such digest is all zero.
pub open spec fn payload_unhashed(p: PayloadView) -> bool {
    match p {
        PayloadView::BlockResponse(b) => forall|i: int|
            0 <= i < b.precommits.len() ==> (#[trigger] b.precommits[i]).hash == crypto::Hash(
                0,
                0,
                0,
                0,
            ),
        PayloadView::TransactionsResponse(_, txs) => forall|i: int|
            0 <= i < txs.len() ==> (#[trigger] txs[i]).hash == crypto::Hash(0, 0, 0, 0),
        _ => true,
    }
}

/// Whether the message `m` bears no digest: its own and those of the
/// messages that it holds are all zero. That is how a message is read from
/// the wire; whoever checks its signature computes the digests.
pub open spec fn unhashed(m: SignedView<PayloadView>) -> bool {
    m.hash == crypto::Hash(0, 0, 0, 0) && payload_unhashed(m.payload)
}

/// Calls `String::from_utf8`, of which the standard library says that it
/// returns the bytes as a string where they are valid UTF-8, and fails
/// where they are not.
#[verifier::external_body]
fn string_from_utf8(bytes: Vec<u8>) -> (r: Option<String>)
    ensures
        match r {
            Some(s) => vstd::utf8::valid_utf8(bytes@) && s@ == vstd::utf8::decode_utf8(bytes@),
            None => !vstd::utf8::valid_utf8(bytes@),
        },
{
    match String::from_utf8(bytes) {
        Ok(s) => Some(s),
        Err(_) => None,
    }
}

/// The word that stands for `secs` seconds.
fn seconds_to_word(secs: i64) -> (w: u64)
    ensures
        w == seconds_word(secs),
{
    if secs >= 0 {
        secs as u64
    } else {
        (secs as i128 + 0x1_0000_0000_0000_0000) as u64
    }
}

/// The seconds that the word `w` stands for.
fn word_to_seconds(w: u64) -> (secs: i64)
    ensures
        secs == word_seconds(w),
{
    if w <= 0x7fff_ffff_ffff_ffff {
        w as i64
    } else {
        (w as i128 - 0x1_0000_0000_0000_0000) as i64
    }
}

/// Appends the word `w`.
fn push_word(out: &mut Vec<Item>, w: u64)
    ensures
        items_view(final(out)@) == items_view(old(out)@).push(ItemView::Word(w)),
{
    let ghost before = items_view(out@);
    out.push(Item::Word(w));
    proof {
        assert(items_view(out@) =~= before.push(ItemView::Word(w)));
    }
}

/// Appends a copy of the bytes `b`.
fn push_bytes(out: &mut Vec<Item>, b: &[u8])
    ensures
        items_view(final(out)@) == items_view(old(out)@).push(ItemView::Bytes(b@)),
{
    let ghost before = items_view(out@);
    out.push(Item::Bytes(vstd::slice::slice_to_vec(b)));
    proof {
        assert(items_view(out@) =~= before.push(ItemView::Bytes(b@)));
    }
}

/// Appends the four words of the digest `h`.
fn push_hash(out: &mut Vec<Item>, h: crypto::Hash)
    ensures
        items_view(final(out)@) == items_view(old(out)@) + hash_items(h),
{
    let ghost before = items_view(out@);
    push_word(out, h.0);
    push_word(out, h.1);
    push_word(out, h.2);
    push_word(out, h.3);
    proof {
        assert(items_view(out@) =~= before + hash_items(h));
    }
}

/// Appends the four words of the key `k`.
fn push_key(out: &mut Vec<Item>, k: PublicKey)
    ensures
        items_view(final(out)@) == items_view(old(out)@) + key_items(k),
{
    let ghost before = items_view(out@);
    push_word(out, k.0);
    push_word(out, k.1);
    push_word(out, k.2);
    push_word(out, k.3);
    proof {
        assert(items_view(out@) =~= before + key_items(k));
    }
}

/// Appends the eight words of the signature `s`.
fn push_signature(out: &mut Vec<Item>, s: Signature)
    ensures
        items_view(final(out)@) == items_view(old(out)@) + signature_items(s),
{
    let ghost before = items_view(out@);
    push_word(out, s.0);
    push_word(out, s.1);
    push_word(out, s.2);
    push_word(out, s.3);
    push_word(out, s.4);
    push_word(out, s.5);
    push_word(out, s.6);
    push_word(out, s.7);
    proof {
        assert(items_view(out@) =~= before + signature_items(s));
    }
}

/// Appends the thirteen words of the precommit `p`.
fn push_precommit(out: &mut Vec<Item>, p: &Precommit)
    ensures
        items_view(final(out)@) == items_view(old(out)@) + precommit_items(*p),
{
    let ghost before = items_view(out@);
    push_word(out, p.validator.0 as u64);
    push_word(out, p.height.0);
    push_word(out, p.round.0 as u64);
    push_hash(out, p.propose_hash);
    push_hash(out, p.block_hash);
    push_word(out, seconds_to_word(p.time.secs));
    push_word(out, p.time.nanos as u64);
    proof {
        assert(items_view(out@) =~= before + precommit_items(*p));
    }
}

/// Appends the words of the digests `hashes`: their number, then four
/// words for each.
fn push_hashes(out: &mut Vec<Item>, hashes: &Vec<crypto::Hash>)
    ensures
        items_view(final(out)@) == items_view(old(out)@) + hashes_items(hashes@),
{
    let ghost before = items_view(out@);
    push_word(out, hashes.len() as u64);
    let mut j: usize = 0;
    while j < hashes.len()
        invariant
            j <= hashes.len(),
            items_view(out@).len() == before.len() + 1 + 4 * j,
            forall|i: int| 0 <= i < before.len() ==> items_view(out@)[i] == before[i],
            items_view(out@)[before.len() as int] == word(hashes@.len() as int),
            forall|i: int|
                0 <= i < 4 * j ==> #[trigger] items_view(out@)[before.len() + 1 + i] == hashes_item(
                    hashes@,
                    i,
                ),
        decreases hashes.len() - j,
    {
        let ghost row = items_view(out@);
        push_hash(out, hashes[j]);
        proof {
            let now = items_view(out@);
            assert forall|i: int| 0 <= i < 4 * (j + 1) implies #[trigger] now[before.len() + 1 + i]
                == hashes_item(hashes@, i) by {
                if i < 4 * j {
                    assert(now[before.len() + 1 + i] == row[before.len() + 1 + i]);
                } else {
                    assert(now[before.len() + 1 + i] == hash_items(hashes@[j as int])[i - 4 * j]);
                    assert(i / 4 == j);
                }
            }
        }
        j = j + 1;
    }
    proof {
        let now = items_view(out@);
        let goal = before + hashes_items(hashes@);
        assert(now.len() == goal.len());
        assert forall|k: int| 0 <= k < now.len() implies now[k] == goal[k] by {
            if k > before.len() {
                let i = k - before.len() - 1;
                assert(now[before.len() + 1 + i] == hashes_item(hashes@, i));
            }
        }
        assert(now =~= goal);
    }
}

/// Appends the items of the content `p`.
fn push_payload(out: &mut Vec<Item>, p: &Payload)
    ensures
        items_view(final(out)@) == items_view(old(out)@) + payload_items(wire_payload(p@)),
{
    proof {
        reveal(crate::wire::messages::connect_items);
        reveal(crate::wire::messages::status_items);
        reveal(crate::wire::messages::propose_items);
        reveal(crate::wire::messages::prevote_items);
        reveal(crate::wire::messages::transaction_items);
        reveal(crate::wire::messages::transactions_request_items);
        reveal(crate::wire::messages::propose_request_items);
        reveal(crate::wire::messages::prevotes_request_items);
    }
    let ghost before = items_view(out@);
    let ghost goal = payload_items(wire_payload(p@));
    match p {
        Payload::Connect(c) => {
            push_word(out, 0);
            push_bytes(out, c.pub_addr.as_str().as_bytes());
            push_word(out, seconds_to_word(c.time.secs));
            push_word(out, c.time.nanos as u64);
            push_bytes(out, c.user_agent.as_str().as_bytes());
            proof {
                assert(items_view(out@) =~= before + goal);
            }
        },
        Payload::Status(s) => {
            push_word(out, 1);
            push_word(out, s.height.0);
            push_hash(out, s.last_hash);
            proof {
                assert(items_view(out@) =~= before + goal);
            }
        },
        Payload::Propose(q) => {
            push_word(out, 2);
            push_word(out, q.validator.0 as u64);
            push_word(out, q.height.0);
            push_word(out, q.round.0 as u64);
            push_hash(out, q.prev_hash);
            push_hashes(out, &q.transactions);
            proof {
                assert(items_view(out@) =~= before + goal);
            }
        },
        Payload::Prevote(q) => {
            push_word(out, 3);
            push_word(out, q.validator.0 as u64);
            push_word(out, q.height.0);
            push_word(out, q.round.0 as u64);
            push_hash(out, q.propose_hash);
            push_word(out, q.locked_round.0 as u64);
            proof {
                assert(items_view(out@) =~= before + goal);
            }
        },
        Payload::Precommit(q) => {
            push_word(out, 4);
            push_precommit(out, q);
            proof {
                assert(items_view(out@) =~= before + goal);
            }
        },
        Payload::Transaction(t) => {
            push_word(out, 5);
            push_word(out, t.service_id as u64);
            push_bytes(out, t.payload.as_slice());
            proof {
                assert(items_view(out@) =~= before + goal);
            }
        },
        Payload::BlockResponse(b) => {
            push_block_response(out, b);
        },
        Payload::TransactionsResponse(r) => {
            push_transactions_response(out, r);
        },
        Payload::TransactionsRequest(r) => {
            push_word(out, 8);
            push_key(out, r.to);
            push_hashes(out, &r.txs);
            proof {
                assert(items_view(out@) =~= before + goal);
            }
        },
        Payload::ProposeRequest(r) => {
            push_word(out, 9);
            push_key(out, r.to);
            push_word(out, r.height.0);
            push_hash(out, r.propose_hash);
            proof {
                assert(items_view(out@) =~= before + goal);
            }
        },
        Payload::PrevotesRequest(r) => {
            push_word(out, 10);
            push_key(out, r.to);
            push_word(out, r.height.0);
            push_word(out, r.round.0 as u64);
            push_hash(out, r.propose_hash);
            proof {
                assert(items_view(out@) =~= before + goal);
            }
        },
        Payload::PeersRequest(r) => {
            push_word(out, 11);
            push_key(out, r.to);
            proof {
                assert(items_view(out@) =~= before + goal);
            }
        },
        Payload::BlockRequest(r) => {
            push_word(out, 12);
            push_key(out, r.to);
            push_word(out, r.height.0);
            proof {
                assert(items_view(out@) =~= before + goal);
            }
        },
    }
}

/// Appends the items of the catch-up payload `b`.
fn push_block_response(out: &mut Vec<Item>, b: &BlockResponse)
    ensures
        items_view(final(out)@) == items_view(old(out)@) + payload_items(
            wire_payload(PayloadView::BlockResponse(b@)),
        ),
{
    proof {
        reveal(crate::wire::messages::block_response_items);
    }
    let ghost before = items_view(out@);
    let ghost wire = wire_payload(PayloadView::BlockResponse(b@))->BlockResponse_0;
    push_word(out, 6);
    push_key(out, b.to);
    push_word(out, b.block.proposer_id.0 as u64);
    push_word(out, b.block.height.0);
    push_word(out, b.block.tx_count as u64);
    push_hash(out, b.block.prev_hash);
    push_hash(out, b.block.tx_hash);
    push_hash(out, b.block.state_hash);
    push_hash(out, b.block_hash);
    let ghost head = items_view(out@);
    push_word(out, b.precommits.len() as u64);
    let mut j: usize = 0;
    while j < b.precommits.len()
        invariant
            j <= b.precommits.len(),
            wire == wire_payload(PayloadView::BlockResponse(b@))->BlockResponse_0,
            items_view(out@).len() == head.len() + 1 + 25 * j,
            forall|i: int| 0 <= i < head.len() ==> items_view(out@)[i] == head[i],
            items_view(out@)[head.len() as int] == word(b.precommits@.len() as int),
            forall|i: int|
                0 <= i < 25 * j ==> #[trigger] items_view(out@)[head.len() + 1 + i]
                    == precommits_item(wire.precommits, i),
        decreases b.precommits.len() - j,
    {
        let ghost row = items_view(out@);
        let p = &b.precommits[j];
        push_key(out, p.author);
        push_signature(out, p.signature);
        push_precommit(out, &p.payload);
        proof {
            let now = items_view(out@);
            assert(wire.precommits[j as int] == wire_precommit(b.precommits@[j as int]));
            assert(now =~= row + signed_precommit_items(wire.precommits[j as int]));
            assert forall|i: int| 0 <= i < 25 * (j + 1) implies #[trigger] now[head.len() + 1 + i]
                == precommits_item(wire.precommits, i) by {
                if i < 25 * j {
                    assert(now[head.len() + 1 + i] == row[head.len() + 1 + i]);
                } else {
                    assert(i / 25 == j && i % 25 == i - 25 * j);
                }
            }
        }
        j = j + 1;
    }
    let ghost listed = items_view(out@);
    proof {
        let goal = head + precommits_items(wire.precommits);
        assert(wire.precommits.len() == b.precommits@.len());
        assert(listed.len() == goal.len());
        assert forall|k: int| 0 <= k < listed.len() implies listed[k] == goal[k] by {
            if k > head.len() {
                let i = k - head.len() - 1;
                assert(listed[head.len() + 1 + i] == precommits_item(wire.precommits, i));
            }
        }
        assert(listed =~= goal);
    }
    push_hashes(out, &b.transactions);
    proof {
        assert(items_view(out@) =~= before + block_response_items(wire));
    }
}

/// Appends the items of the answer with transactions `r`.
fn push_transactions_response(out: &mut Vec<Item>, r: &TransactionsResponse)
    ensures
        items_view(final(out)@) == items_view(old(out)@) + payload_items(
            wire_payload(Payload::TransactionsResponse(*r)@),
        ),
{
    proof {
        reveal(crate::wire::messages::transactions_response_items);
    }
    let ghost before = items_view(out@);
    let ghost txs = crate::messages::transactions_view(r.transactions@).map_values(
        |t: SignedView<TxView>| wire_tx(t),
    );
    push_word(out, 7);
    push_key(out, r.to);
    push_word(out, r.transactions.len() as u64);
    let ghost head = items_view(out@);
    let mut j: usize = 0;
    while j < r.transactions.len()
        invariant
            j <= r.transactions.len(),
            txs == crate::messages::transactions_view(r.transactions@).map_values(
                |t: SignedView<TxView>| wire_tx(t),
            ),
            items_view(out@).len() == head.len() + 14 * j,
            forall|i: int| 0 <= i < head.len() ==> items_view(out@)[i] == head[i],
            forall|i: int|
                0 <= i < 14 * j ==> #[trigger] items_view(out@)[head.len() + i] == txs_item(txs, i),
        decreases r.transactions.len() - j,
    {
        let ghost row = items_view(out@);
        let t = &r.transactions[j];
        push_key(out, t.author);
        push_signature(out, t.signature);
        push_word(out, t.payload.service_id as u64);
        push_bytes(out, t.payload.payload.as_slice());
        proof {
            let now = items_view(out@);
            assert(txs[j as int] == wire_tx(r.transactions@[j as int]@));
            assert(now =~= row + signed_tx_items(txs[j as int]));
            assert forall|i: int| 0 <= i < 14 * (j + 1) implies #[trigger] now[head.len() + i]
                == txs_item(txs, i) by {
                if i < 14 * j {
                    assert(now[head.len() + i] == row[head.len() + i]);
                } else {
                    assert(i / 14 == j && i % 14 == i - 14 * j);
                }
            }
        }
        j = j + 1;
    }
    proof {
        let now = items_view(out@);
        let goal = before + crate::wire::messages::transactions_response_items(r.to, txs);
        assert(txs.len() == r.transactions@.len());
        assert(now.len() == goal.len());
        assert forall|k: int| 0 <= k < now.len() implies now[k] == goal[k] by {
            if k >= head.len() {
                let i = k - head.len();
                assert(now[head.len() + i] == txs_item(txs, i));
            } else {
                assert(now[k] == head[k]);
            }
        }
        assert(now =~= goal);
    }
}

/// The items of the message `m`.
pub fn message_to_items(m: &Message) -> (out: Vec<Item>)
    ensures
        items_view(out@) == message_items(wire_message(m@)),
{
    let mut out: Vec<Item> = Vec::new();
    push_key(&mut out, m.author);
    push_signature(&mut out, m.signature);
    push_payload(&mut out, &m.payload);
    proof {
        assert(items_view(out@) =~= message_items(wire_message(m@)));
    }
    out
}

/// The bytes of the message `m` as it is on the wire.
pub fn encode(m: &Message) -> (out: Vec<u8>)
    ensures
        out@ == encoded(wire_message(m@)),
{
    let items = message_to_items(m);
    write_items(&items)
}

/// Whether the items of `items` from `from` up to `to` are there and are
/// words.
fn words_in(items: &Vec<Item>, from: usize, to: usize) -> (b: bool)
    ensures
        b == are_words(items_view(items@), from as int, to as int),
{
    if !(from <= to && to <= items.len()) {
        return false;
    }
    let mut i: usize = from;
    while i < to
        invariant
            from <= i <= to <= items.len(),
            forall|k: int| from <= k < i ==> (#[trigger] items_view(items@)[k]) is Word,
        decreases to - i,
    {
        match &items[i] {
            Item::Word(_) => {},
            Item::Bytes(_) => {
                proof {
                    assert(!(items_view(items@)[i as int] is Word));
                }
                return false;
            },
        }
        i = i + 1;
    }
    true
}

/// The word that the item at `i` holds; 0 where it holds none.
fn get_word(items: &Vec<Item>, i: usize) -> (w: u64)
    requires
        i < items@.len(),
    ensures
        w == word_at(items_view(items@), i as int),
{
    match &items[i] {
        Item::Word(w) => *w,
        Item::Bytes(_) => 0,
    }
}

/// Whether the item at `i` is a string of bytes.
fn holds_bytes(items: &Vec<Item>, i: usize) -> (b: bool)
    requires
        i < items@.len(),
    ensures
        b == (items_view(items@)[i as int] is Bytes),
{
    match &items[i] {
        Item::Word(_) => false,
        Item::Bytes(_) => true,
    }
}

/// A copy of the bytes that the item at `i` holds; none where it holds a
/// word.
fn copy_bytes(items: &Vec<Item>, i: usize) -> (b: Vec<u8>)
    requires
        i < items@.len(),
    ensures
        b@ == bytes_at(items_view(items@), i as int),
{
    match &items[i] {
        Item::Word(_) => Vec::new(),
        Item::Bytes(b) => vstd::slice::slice_to_vec(b.as_slice()),
    }
}

/// The digest that the four words at `i` make.
fn read_hash(items: &Vec<Item>, i: usize) -> (h: crypto::Hash)
    requires
        i + 4 <= items.len(),
    ensures
        h == hash_at(items_view(items@), i as int),
{
    crypto::Hash(
        get_word(items, i),
        get_word(items, i + 1),
        get_word(items, i + 2),
        get_word(items, i + 3),
    )
}

/// The key that the four words at `i` make.
fn read_key(items: &Vec<Item>, i: usize) -> (k: PublicKey)
    requires
        i + 4 <= items.len(),
    ensures
        k == key_at(items_view(items@), i as int),
{
    PublicKey(
        get_word(items, i),
        get_word(items, i + 1),
        get_word(items, i + 2),
        get_word(items, i + 3),
    )
}

/// The signature that the eight words at `i` make.
fn read_signature(items: &Vec<Item>, i: usize) -> (s: Signature)
    requires
        i + 8 <= items.len(),
    ensures
        s == signature_at(items_view(items@), i as int),
{
    Signature(
        get_word(items, i),
        get_word(items, i + 1),
        get_word(items, i + 2),
        get_word(items, i + 3),
        get_word(items, i + 4),
        get_word(items, i + 5),
        get_word(items, i + 6),
        get_word(items, i + 7),
    )
}

/// Whether the thirteen items at `i` are the words of a precommit.
fn precommit_in(items: &Vec<Item>, i: usize) -> (b: bool)
    ensures
        b == is_precommit_at(items_view(items@), i as int),
{
    if items.len() < 13 || i > items.len() - 13 {
        return false;
    }
    words_in(items, i, i + 13) && get_word(items, i) <= u16::MAX as u64 && get_word(items, i + 2)
        <= u32::MAX as u64 && get_word(items, i + 12) <= u32::MAX as u64
}

/// The precommit that the thirteen words at `i` make.
fn read_precommit(items: &Vec<Item>, i: usize) -> (p: Precommit)
    requires
        is_precommit_at(items_view(items@), i as int),
    ensures
        p == precommit_at(items_view(items@), i as int),
{
    assert(i + 13 <= items.len());
    Precommit {
        validator: ValidatorId(get_word(items, i) as u16),
        height: Height(get_word(items, i + 1)),
        round: Round(get_word(items, i + 2) as u32),
        propose_hash: read_hash(items, i + 3),
        block_hash: read_hash(items, i + 7),
        time: Timestamp {
            secs: word_to_seconds(get_word(items, i + 11)),
            nanos: get_word(items, i + 12) as u32,
        },
    }
}

/// Whether the items from `at` on, to the end, are the words of a list of
/// digests.
fn hashes_in(items: &Vec<Item>, at: usize) -> (b: bool)
    ensures
        b == are_hashes_at(items_view(items@), at as int),
{
    if at >= items.len() || !words_in(items, at, items.len()) {
        return false;
    }
    let n = get_word(items, at);
    let room = items.len() - at - 1;
    room % 4 == 0 && n == (room / 4) as u64
}

/// The digests that the words from `at` on make.
fn read_hashes(items: &Vec<Item>, at: usize) -> (hashes: Vec<crypto::Hash>)
    requires
        are_hashes_at(items_view(items@), at as int),
    ensures
        hashes@ == hashes_at(items_view(items@), at as int),
{
    let n = (items.len() - at - 1) / 4;
    let mut hashes: Vec<crypto::Hash> = Vec::new();
    let mut j: usize = 0;
    while j < n
        invariant
            j <= n,
            at + 1 + 4 * n == items.len(),
            hashes.len() == j,
            forall|k: int|
                0 <= k < j ==> hashes@[k] == hash_at(items_view(items@), at + 1 + 4 * k),
        decreases n - j,
    {
        hashes.push(read_hash(items, at + 1 + 4 * j));
        j = j + 1;
    }
    proof {
        assert(hashes@ =~= hashes_at(items_view(items@), at as int));
    }
    hashes
}

/// The address advertisement that `items` are the items of.
fn read_connect(items: &Vec<Item>) -> (r: Option<Payload>)
    ensures
        match r {
            Some(p) => connect_of(items_view(items@)) == Some(wire_payload(p@)) && payload_unhashed(
                p@,
            ),
            None => connect_of(items_view(items@)) is None,
        },
{
    proof {
        reveal(crate::wire::messages::connect_of);
    }
    if !(items.len() == 5 && holds_bytes(items, 1) && words_in(items, 2, 4) && get_word(items, 3)
        <= u32::MAX as u64 && holds_bytes(items, 4)) {
        return None;
    }
    let pub_addr = match string_from_utf8(copy_bytes(items, 1)) {
        Some(s) => s,
        None => {
            return None;
        },
    };
    let user_agent = match string_from_utf8(copy_bytes(items, 4)) {
        Some(s) => s,
        None => {
            return None;
        },
    };
    Some(
        Payload::Connect(
            Connect {
                pub_addr,
                time: Timestamp {
                    secs: word_to_seconds(get_word(items, 2)),
                    nanos: get_word(items, 3) as u32,
                },
                user_agent,
            },
        ),
    )
}

/// The block nomination that `items` are the items of.
fn read_propose(items: &Vec<Item>) -> (r: Option<Payload>)
    ensures
        match r {
            Some(p) => crate::wire::messages::propose_of(items_view(items@)) == Some(
                wire_payload(p@),
            ) && payload_unhashed(p@),
            None => crate::wire::messages::propose_of(items_view(items@)) is None,
        },
{
    proof {
        reveal(crate::wire::messages::propose_of);
    }
    if !(words_in(items, 1, 8) && get_word(items, 1) <= u16::MAX as u64 && get_word(items, 3)
        <= u32::MAX as u64 && hashes_in(items, 8)) {
        return None;
    }
    Some(
        Payload::Propose(
            Propose {
                validator: ValidatorId(get_word(items, 1) as u16),
                height: Height(get_word(items, 2)),
                round: Round(get_word(items, 3) as u32),
                prev_hash: read_hash(items, 4),
                transactions: read_hashes(items, 8),
            },
        ),
    )
}

/// The catch-up payload that `items` are the items of.
fn read_block_response(items: &Vec<Item>) -> (r: Option<Payload>)
    ensures
        match r {
            Some(p) => block_response_of(items_view(items@)) == Some(wire_payload(p@))
                && payload_unhashed(p@),
            None => block_response_of(items_view(items@)) is None,
        },
{
    proof {
        reveal(crate::wire::messages::block_response_of);
    }
    let ghost view = items_view(items@);
    if !(words_in(items, 1, 25) && get_word(items, 5) <= u16::MAX as u64 && get_word(items, 7)
        <= u32::MAX as u64) {
        return None;
    }
    if items.len() < 26 {
        return None;
    }
    let count = get_word(items, 24);
    if count > ((items.len() - 26) / 25) as u64 {
        return None;
    }
    let n = count as usize;
    let mut precommits: Vec<Signed<Precommit>> = Vec::new();
    let mut j: usize = 0;
    while j < n
        invariant
            j <= n,
            view == items_view(items@),
            n == word_at(view, 24),
            25 + 25 * n < items.len(),
            precommits.len() == j,
            forall|k: int| 0 <= k < j ==> #[trigger] precommit_ok(view, k),
            forall|k: int|
                0 <= k < j ==> wire_precommit(#[trigger] precommits@[k]) == signed_precommit_at(
                    view,
                    25 + 25 * k,
                ) && precommits@[k].hash == crypto::Hash(0, 0, 0, 0),
        decreases n - j,
    {
        let at = 25 + 25 * j;
        if !(words_in(items, at, at + 12) && precommit_in(items, at + 12)) {
            proof {
                reveal(crate::wire::messages::block_response_of);
                assert(!precommit_ok(view, j as int));
            }
            return None;
        }
        precommits.push(
            Signed {
                payload: read_precommit(items, at + 12),
                author: read_key(items, at),
                hash: crypto::Hash::zero(),
                signature: read_signature(items, at + 4),
            },
        );
        j = j + 1;
    }
    let at = 25 + 25 * n;
    if !hashes_in(items, at) {
        return None;
    }
    let response = BlockResponse {
        to: read_key(items, 1),
        block: Block {
            proposer_id: ValidatorId(get_word(items, 5) as u16),
            height: Height(get_word(items, 6)),
            tx_count: get_word(items, 7) as u32,
            prev_hash: read_hash(items, 8),
            tx_hash: read_hash(items, 12),
            state_hash: read_hash(items, 16),
        },
        block_hash: read_hash(items, 20),
        precommits,
        transactions: read_hashes(items, at),
    };
    proof {
        let wire = wire_payload(PayloadView::BlockResponse(response@))->BlockResponse_0;
        assert(wire.precommits =~= Seq::new(
            word_at(view, 24) as nat,
            |k: int| signed_precommit_at(view, 25 + 25 * k),
        ));
    }
    Some(Payload::BlockResponse(response))
}

/// The answer with transactions that `items` are the items of.
fn read_transactions_response(items: &Vec<Item>) -> (r: Option<Payload>)
    ensures
        match r {
            Some(p) => crate::wire::messages::transactions_response_of(items_view(items@)) == Some(
                wire_payload(p@),
            ) && payload_unhashed(p@),
            None => crate::wire::messages::transactions_response_of(items_view(items@)) is None,
        },
{
    proof {
        reveal(crate::wire::messages::transactions_response_of);
    }
    let ghost view = items_view(items@);
    if !words_in(items, 1, 6) {
        return None;
    }
    let count = get_word(items, 5);
    let room = items.len() - 6;
    if !(room % 14 == 0 && count == (room / 14) as u64) {
        return None;
    }
    let n = room / 14;
    let mut transactions: Vec<Signed<RawTransaction>> = Vec::new();
    let mut j: usize = 0;
    while j < n
        invariant
            j <= n,
            view == items_view(items@),
            n == word_at(view, 5),
            6 + 14 * n == items.len(),
            transactions.len() == j,
            forall|k: int| 0 <= k < j ==> #[trigger] tx_ok(view, k),
            forall|k: int|
                0 <= k < j ==> wire_tx((#[trigger] transactions@[k])@) == signed_tx_at(
                    view,
                    6 + 14 * k,
                ) && transactions@[k].hash == crypto::Hash(0, 0, 0, 0),
        decreases n - j,
    {
        let at = 6 + 14 * j;
        if !(words_in(items, at, at + 13) && get_word(items, at + 12) <= u16::MAX as u64
            && holds_bytes(items, at + 13)) {
            proof {
                reveal(crate::wire::messages::transactions_response_of);
                assert(!tx_ok(view, j as int));
            }
            return None;
        }
        transactions.push(
            Signed {
                payload: RawTransaction {
                    service_id: get_word(items, at + 12) as u16,
                    payload: copy_bytes(items, at + 13),
                },
                author: read_key(items, at),
                hash: crypto::Hash::zero(),
                signature: read_signature(items, at + 4),
            },
        );
        j = j + 1;
    }
    let response = TransactionsResponse { to: read_key(items, 1), transactions };
    proof {
        let p = Payload::TransactionsResponse(response)@;
        let txs = crate::messages::transactions_view(response.transactions@);
        assert(txs.map_values(|t: SignedView<TxView>| wire_tx(t)) =~= Seq::new(
            word_at(view, 5) as nat,
            |k: int| signed_tx_at(view, 6 + 14 * k),
        ));
        assert forall|k: int| 0 <= k < txs.len() implies (#[trigger] txs[k]).hash == crypto::Hash(
            0,
            0,
            0,
            0,
        ) by {
            assert(response.transactions@[k].hash == crypto::Hash(0, 0, 0, 0));
        }
    }
    Some(Payload::TransactionsResponse(response))
}

/// The content that `items` are the items of; nothing where they are not
/// the items of a content.
pub fn read_payload(items: &Vec<Item>) -> (r: Option<Payload>)
    ensures
        match r {
            Some(p) => payload_of(items_view(items@)) == Some(wire_payload(p@)) && payload_unhashed(
                p@,
            ),
            None => payload_of(items_view(items@)) is None,
        },
{
    proof {
        reveal(crate::wire::messages::status_of);
        reveal(crate::wire::messages::prevote_of);
        reveal(crate::wire::messages::precommit_payload_of);
        reveal(crate::wire::messages::transaction_of);
        reveal(crate::wire::messages::transactions_request_of);
        reveal(crate::wire::messages::propose_request_of);
        reveal(crate::wire::messages::prevotes_request_of);
        reveal(crate::wire::messages::peers_request_of);
        reveal(crate::wire::messages::block_request_of);
    }
    if items.len() == 0 || holds_bytes(items, 0) {
        return None;
    }
    let kind = get_word(items, 0);
    if kind == 0 {
        read_connect(items)
    } else if kind == 1 {
        if items.len() == 6 && words_in(items, 1, 6) {
            Some(
                Payload::Status(
                    Status { height: Height(get_word(items, 1)), last_hash: read_hash(items, 2) },
                ),
            )
        } else {
            None
        }
    } else if kind == 2 {
        read_propose(items)
    } else if kind == 3 {
        if items.len() == 9 && words_in(items, 1, 9) && get_word(items, 1) <= u16::MAX as u64
            && get_word(items, 3) <= u32::MAX as u64 && get_word(items, 8) <= u32::MAX as u64 {
            Some(
                Payload::Prevote(
                    Prevote {
                        validator: ValidatorId(get_word(items, 1) as u16),
                        height: Height(get_word(items, 2)),
                        round: Round(get_word(items, 3) as u32),
                        propose_hash: read_hash(items, 4),
                        locked_round: Round(get_word(items, 8) as u32),
                    },
                ),
            )
        } else {
            None
        }
    } else if kind == 4 {
        if items.len() == 14 && precommit_in(items, 1) {
            Some(Payload::Precommit(read_precommit(items, 1)))
        } else {
            None
        }
    } else if kind == 5 {
        if items.len() == 3 && !holds_bytes(items, 1) && get_word(items, 1) <= u16::MAX as u64
            && holds_bytes(items, 2) {
            Some(
                Payload::Transaction(
                    RawTransaction {
                        service_id: get_word(items, 1) as u16,
                        payload: copy_bytes(items, 2),
                    },
                ),
            )
        } else {
            None
        }
    } else if kind == 6 {
        read_block_response(items)
    } else if kind == 7 {
        read_transactions_response(items)
    } else if kind == 8 {
        if words_in(items, 1, 5) && hashes_in(items, 5) {
            Some(
                Payload::TransactionsRequest(
                    TransactionsRequest { to: read_key(items, 1), txs: read_hashes(items, 5) },
                ),
            )
        } else {
            None
        }
    } else if kind == 9 {
        if items.len() == 10 && words_in(items, 1, 10) {
            Some(
                Payload::ProposeRequest(
                    ProposeRequest {
                        to: read_key(items, 1),
                        height: Height(get_word(items, 5)),
                        propose_hash: read_hash(items, 6),
                    },
                ),
            )
        } else {
            None
        }
    } else if kind == 10 {
        if items.len() == 11 && words_in(items, 1, 11) && get_word(items, 6) <= u32::MAX as u64 {
            Some(
                Payload::PrevotesRequest(
                    PrevotesRequest {
                        to: read_key(items, 1),
                        height: Height(get_word(items, 5)),
                        round: Round(get_word(items, 6) as u32),
                        propose_hash: read_hash(items, 7),
                    },
                ),
            )
        } else {
            None
        }
    } else if kind == 11 {
        if items.len() == 5 && words_in(items, 1, 5) {
            Some(Payload::PeersRequest(PeersRequest { to: read_key(items, 1) }))
        } else {
            None
        }
    } else if kind == 12 {
        if items.len() == 6 && words_in(items, 1, 6) {
            Some(
                Payload::BlockRequest(
                    BlockRequest { to: read_key(items, 1), height: Height(get_word(items, 5)) },
                ),
            )
        } else {
            None
        }
    } else {
        None
    }
}

/// The message that `items` are the items of, without digests; nothing
/// where they are not the items of a message.
pub fn message_from_items(items: Vec<Item>) -> (r: Option<Message>)
    ensures
        match r {
            Some(m) => message_of(items_view(items@)) == Some(wire_message(m@)) && unhashed(m@),
            None => message_of(items_view(items@)) is None,
        },
{
    if !words_in(&items, 0, 12) {
        return None;
    }
    let author = read_key(&items, 0);
    let signature = read_signature(&items, 4);
    let ghost view = items_view(items@);
    let mut head = items;
    let body = head.split_off(12);
    proof {
        assert(items_view(body@) =~= view.skip(12));
    }
    match read_payload(&body) {
        Some(payload) => Some(Signed { payload, author, hash: crypto::Hash::zero(), signature }),
        None => None,
    }
}

/// The message that `bytes` are the bytes of, without digests; nothing
/// where `bytes` are not the bytes of a message.
pub fn decode(bytes: &[u8]) -> (r: Option<Message>)
    ensures
        match r {
            Some(m) => decoded(bytes@) == Some(wire_message(m@)) && unhashed(m@),
            None => decoded(bytes@) is None,
        },
{
    match read_items(bytes) {
        Some(items) => message_from_items(items),
        None => None,
    }
}

} // verus!
