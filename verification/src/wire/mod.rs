//! The bytes of a message. A message is laid out as a row of items, each a
//! 64-bit word or a string of bytes; an item is written as a tag, then the
//! word in little-endian order, or the length of the string as such a word
//! and the string. Only one row of bytes stands for a message, and only one
//! message for a row of bytes.

pub mod codec;
pub mod messages;

use vstd::prelude::*;
use vstd::bytes::{
    lemma_auto_spec_u64_to_from_le_bytes, spec_u64_from_le_bytes, spec_u64_to_le_bytes,
    u64_from_le_bytes, u64_to_le_bytes,
};
use vstd::slice::slice_subrange;

verus! {

/// Tag of a word.
pub const WORD_TAG: u8 = 0;

/// Tag of a string of bytes.
pub const BYTES_TAG: u8 = 1;

/// One item of a message.
#[derive(Debug)]
pub enum Item {
    /// A 64-bit word.
    Word(u64),
    /// A string of bytes.
    Bytes(Vec<u8>),
}

/// One item of a message, as a mathematical value.
pub enum ItemView {
    /// A 64-bit word.
    Word(u64),
    /// A string of bytes.
    Bytes(Seq<u8>),
}

impl View for Item {
    type V = ItemView;

    open spec fn view(&self) -> ItemView {
        match *self {
            Item::Word(w) => ItemView::Word(w),
            Item::Bytes(b) => ItemView::Bytes(b@),
        }
    }
}

/// The views of `items`, in order.
pub open spec fn items_view(items: Seq<Item>) -> Seq<ItemView> {
    items.map_values(|i: Item| i@)
}

/// Whether the item `item` can be written: a string is no longer than a
/// word can tell.
pub open spec fn writable(item: ItemView) -> bool {
    match item {
        ItemView::Word(_) => true,
        ItemView::Bytes(b) => b.len() <= u64::MAX,
    }
}

/// The bytes of the item `item`.
pub open spec fn item_bytes(item: ItemView) -> Seq<u8> {
    match item {
        ItemView::Word(w) => seq![WORD_TAG] + spec_u64_to_le_bytes(w),
        ItemView::Bytes(b) => seq![BYTES_TAG] + spec_u64_to_le_bytes(b.len() as u64) + b,
    }
}

/// The bytes of the items `items`, one after another.
pub open spec fn items_bytes(items: Seq<ItemView>) -> Seq<u8>
    decreases items.len(),
{
    if items.len() == 0 {
        Seq::empty()
    } else {
        item_bytes(items[0]) + items_bytes(items.drop_first())
    }
}

/// The item that `bytes` begin with, and the number of bytes that it
/// takes.
pub open spec fn first_item(bytes: Seq<u8>) -> Option<(ItemView, int)> {
    if bytes.len() < 9 {
        None
    } else if bytes[0] == WORD_TAG {
        Some((ItemView::Word(spec_u64_from_le_bytes(bytes.subrange(1, 9))), 9))
    } else if bytes[0] == BYTES_TAG {
        let n = spec_u64_from_le_bytes(bytes.subrange(1, 9));
        if bytes.len() - 9 >= n {
            Some((ItemView::Bytes(bytes.subrange(9, 9 + n)), 9 + n))
        } else {
            None
        }
    } else {
        None
    }
}

/// The items that `bytes` are the bytes of, if they are the bytes of
/// items.
pub open spec fn items_of(bytes: Seq<u8>) -> Option<Seq<ItemView>>
    decreases bytes.len(),
{
    if bytes.len() == 0 {
        Some(Seq::empty())
    } else {
        match first_item(bytes) {
            Some((item, taken)) => if 0 < taken <= bytes.len() {
                match items_of(bytes.skip(taken)) {
                    Some(rest) => Some(seq![item] + rest),
                    None => None,
                }
            } else {
                None
            },
            None => None,
        }
    }
}

/// Bytes that begin with the bytes of an item begin with that item.
pub proof fn lemma_first_item_written(item: ItemView, rest: Seq<u8>)
    requires
        writable(item),
    ensures
        first_item(item_bytes(item) + rest) == Some((item, item_bytes(item).len() as int)),
        item_bytes(item).len() >= 9,
{
    lemma_auto_spec_u64_to_from_le_bytes();
    let all = item_bytes(item) + rest;
    match item {
        ItemView::Word(w) => {
            assert(all.subrange(1, 9) =~= spec_u64_to_le_bytes(w));
        },
        ItemView::Bytes(b) => {
            assert(all.subrange(1, 9) =~= spec_u64_to_le_bytes(b.len() as u64));
            assert(all.subrange(9, 9 + b.len() as int) =~= b);
        },
    }
}

/// The number of bytes that the item takes that `bytes` begin with.
pub open spec fn first_len(bytes: Seq<u8>) -> int {
    match first_item(bytes) {
        Some((_, taken)) => taken,
        None => 0,
    }
}

/// The item that `bytes` begin with.
pub open spec fn first_of(bytes: Seq<u8>) -> ItemView {
    match first_item(bytes) {
        Some((item, _)) => item,
        None => ItemView::Word(0),
    }
}

/// The item that bytes begin with is written as these bytes begin.
pub proof fn lemma_first_item_read(bytes: Seq<u8>)
    requires
        first_item(bytes) is Some,
    ensures
        9 <= first_len(bytes) <= bytes.len(),
        writable(first_of(bytes)),
        item_bytes(first_of(bytes)) == bytes.take(first_len(bytes)),
{
    lemma_auto_spec_u64_to_from_le_bytes();
    let (item, taken) = first_item(bytes)->0;
    let word = bytes.subrange(1, 9);
    assert(spec_u64_to_le_bytes(spec_u64_from_le_bytes(word)) == word);
    match item {
        ItemView::Word(w) => {
            assert(item_bytes(item) =~= bytes.take(9));
        },
        ItemView::Bytes(b) => {
            assert(item_bytes(item) =~= bytes.take(taken));
        },
    }
}

/// The bytes of a row of items with one more item at the end.
pub proof fn lemma_items_bytes_push(items: Seq<ItemView>, item: ItemView)
    ensures
        items_bytes(items.push(item)) == items_bytes(items) + item_bytes(item),
    decreases items.len(),
{
    if items.len() == 0 {
        assert(items.push(item).drop_first() =~= Seq::<ItemView>::empty());
        assert(items_bytes(Seq::<ItemView>::empty()) =~= Seq::<u8>::empty());
        assert(items.push(item)[0] == item);
        assert(items_bytes(items.push(item)) =~= item_bytes(item) + items_bytes(
            items.push(item).drop_first(),
        ));
        assert(items_bytes(items.push(item)) =~= item_bytes(item));
        assert(items_bytes(items) + item_bytes(item) =~= item_bytes(item));
    } else {
        lemma_items_bytes_push(items.drop_first(), item);
        assert(items.push(item).drop_first() =~= items.drop_first().push(item));
        assert(items_bytes(items.push(item)) =~= items_bytes(items) + item_bytes(item));
    }
}

/// What is written can be read: the bytes of a row of items are read as
/// that row.
pub proof fn lemma_written_is_read(items: Seq<ItemView>)
    requires
        forall|i: int| 0 <= i < items.len() ==> writable(#[trigger] items[i]),
    ensures
        items_of(items_bytes(items)) == Some(items),
    decreases items.len(),
{
    if items.len() == 0 {
        assert(items_of(items_bytes(items)) == Some(Seq::<ItemView>::empty()));
        assert(items =~= Seq::<ItemView>::empty());
    } else {
        let rest = items.drop_first();
        assert forall|i: int| 0 <= i < rest.len() implies writable(#[trigger] rest[i]) by {
            assert(rest[i] == items[i + 1]);
        }
        lemma_written_is_read(rest);
        lemma_first_item_written(items[0], items_bytes(rest));
        let all = items_bytes(items);
        assert(all.skip(item_bytes(items[0]).len() as int) =~= items_bytes(rest));
        assert(seq![items[0]] + rest =~= items);
    }
}

/// What is read was written: bytes that are read as a row of items are the
/// bytes of that row, and every item of the row can be written.
pub proof fn lemma_read_is_written(bytes: Seq<u8>)
    requires
        items_of(bytes) is Some,
    ensures
        items_bytes(items_of(bytes)->0) == bytes,
        forall|i: int| 0 <= i < items_of(bytes)->0.len() ==> writable(#[trigger] items_of(bytes)->0[i]),
    decreases bytes.len(),
{
    if bytes.len() == 0 {
        assert(items_bytes(Seq::<ItemView>::empty()) =~= bytes);
    } else {
        let (item, taken) = first_item(bytes)->0;
        lemma_first_item_read(bytes);
        let tail = bytes.skip(taken);
        lemma_read_is_written(tail);
        let rest = items_of(tail)->0;
        let items = seq![item] + rest;
        assert(items.drop_first() =~= rest);
        assert(items_bytes(items) =~= bytes.take(taken) + tail);
        assert(bytes.take(taken) + tail =~= bytes);
        assert forall|i: int| 0 <= i < items.len() implies writable(#[trigger] items[i]) by {
            if i > 0 {
                assert(items[i] == rest[i - 1]);
            }
        }
    }
}

/// Two rows of items with the same bytes are the same row.
pub proof fn lemma_items_bytes_injective(a: Seq<ItemView>, b: Seq<ItemView>)
    requires
        forall|i: int| 0 <= i < a.len() ==> writable(#[trigger] a[i]),
        forall|i: int| 0 <= i < b.len() ==> writable(#[trigger] b[i]),
        items_bytes(a) == items_bytes(b),
    ensures
        a == b,
{
    lemma_written_is_read(a);
    lemma_written_is_read(b);
}

/// Appends `src` to `out`.
pub fn append_bytes(out: &mut Vec<u8>, src: &[u8])
    ensures
        final(out)@ == old(out)@ + src@,
{
    let mut i: usize = 0;
    while i < src.len()
        invariant
            i <= src.len(),
            out@ == old(out)@ + src@.subrange(0, i as int),
        decreases src.len() - i,
    {
        out.push(src[i]);
        proof {
            assert(src@.subrange(0, i + 1) =~= src@.subrange(0, i as int).push(src@[i as int]));
            assert(out@ =~= old(out)@ + src@.subrange(0, i + 1));
        }
        i = i + 1;
    }
    proof {
        assert(src@.subrange(0, i as int) =~= src@);
    }
}

/// The bytes of the items `items`.
pub fn write_items(items: &Vec<Item>) -> (out: Vec<u8>)
    ensures
        out@ == items_bytes(items_view(items@)),
{
    let ghost all = items_view(items@);
    let mut out: Vec<u8> = Vec::new();
    let mut i: usize = 0;
    proof {
        assert(all.take(0) =~= Seq::<ItemView>::empty());
    }
    while i < items.len()
        invariant
            i <= items.len(),
            all == items_view(items@),
            out@ == items_bytes(all.take(i as int)),
        decreases items.len() - i,
    {
        proof {
            lemma_items_bytes_push(all.take(i as int), all[i as int]);
            assert(all.take(i + 1) =~= all.take(i as int).push(all[i as int]));
        }
        let ghost before = out@;
        match &items[i] {
            Item::Word(w) => {
                out.push(WORD_TAG);
                let word = u64_to_le_bytes(*w);
                append_bytes(&mut out, word.as_slice());
                proof {
                    assert(out@ =~= before + item_bytes(all[i as int]));
                }
            },
            Item::Bytes(b) => {
                out.push(BYTES_TAG);
                let word = u64_to_le_bytes(b.len() as u64);
                append_bytes(&mut out, word.as_slice());
                append_bytes(&mut out, b.as_slice());
                proof {
                    assert(out@ =~= before + item_bytes(all[i as int]));
                }
            },
        }
        i = i + 1;
    }
    proof {
        assert(all.take(i as int) =~= all);
    }
    out
}

/// What of the items is left to read from the place `at` on, together with
/// the items `done` that were read before it.
pub open spec fn read_from(bytes: Seq<u8>, at: int, done: Seq<ItemView>) -> Option<Seq<ItemView>> {
    match items_of(bytes.skip(at)) {
        Some(rest) => Some(done + rest),
        None => None,
    }
}

/// The items that `bytes` are the bytes of; nothing where they are not the
/// bytes of items.
pub fn read_items(bytes: &[u8]) -> (r: Option<Vec<Item>>)
    ensures
        match r {
            Some(items) => items_of(bytes@) == Some(items_view(items@)),
            None => items_of(bytes@) is None,
        },
{
    let mut items: Vec<Item> = Vec::new();
    let mut at: usize = 0;
    proof {
        assert(bytes@.skip(0) =~= bytes@);
        assert(items_view(items@) =~= Seq::<ItemView>::empty());
        match items_of(bytes@) {
            Some(rest) => {
                assert(Seq::<ItemView>::empty() + rest =~= rest);
            },
            None => {},
        }
    }
    while at < bytes.len()
        invariant
            at <= bytes.len(),
            items_of(bytes@) == read_from(bytes@, at as int, items_view(items@)),
        decreases bytes.len() - at,
    {
        let ghost tail = bytes@.skip(at as int);
        let ghost done = items_view(items@);
        if bytes.len() - at < 9 {
            return None;
        }
        let tag = bytes[at];
        let word = u64_from_le_bytes(slice_subrange(bytes, at + 1, at + 9));
        proof {
            assert(tail.subrange(1, 9) =~= bytes@.subrange(at + 1, at + 9));
            assert(tail[0] == tag);
        }
        if tag == WORD_TAG {
            items.push(Item::Word(word));
            proof {
                let next = bytes@.skip(at + 9);
                assert(tail.skip(9) =~= next);
                assert(items_view(items@) =~= done.push(ItemView::Word(word)));
                match items_of(next) {
                    Some(rest) => {
                        assert(done + (seq![ItemView::Word(word)] + rest) =~= done.push(
                            ItemView::Word(word),
                        ) + rest);
                    },
                    None => {},
                }
            }
            at = at + 9;
        } else if tag == BYTES_TAG {
            if ((bytes.len() - at - 9) as u64) < word {
                return None;
            }
            let n = word as usize;
            let string = vstd::slice::slice_to_vec(slice_subrange(bytes, at + 9, at + 9 + n));
            proof {
                assert(tail.subrange(9, 9 + n) =~= string@);
            }
            items.push(Item::Bytes(string));
            proof {
                let next = bytes@.skip(at + 9 + n);
                assert(tail.skip(9 + n) =~= next);
                assert(items_view(items@) =~= done.push(ItemView::Bytes(string@)));
                match items_of(next) {
                    Some(rest) => {
                        assert(done + (seq![ItemView::Bytes(string@)] + rest) =~= done.push(
                            ItemView::Bytes(string@),
                        ) + rest);
                    },
                    None => {},
                }
            }
            at = at + 9 + n;
        } else {
            return None;
        }
    }
    proof {
        assert(bytes@.skip(at as int) =~= Seq::<u8>::empty());
        assert(items_view(items@) + Seq::<ItemView>::empty() =~= items_view(items@));
    }
    Some(items)
}

} // verus!
