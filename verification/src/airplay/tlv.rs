//! Type-length-value records of one byte tag and one byte length, as the
//! pairing messages carry them.

use std::collections::HashMap;

use vstd::prelude::*;
use vstd::std_specs::hash::*;

use crate::error::FerricastError;
use crate::octets::push_range;
use crate::text::{byte_list, byte_list_text, join2};

verus! {

pub const TLV_TYPE_IDENTIFIER: u8 = 0x1;

pub const TLV_TYPE_STATE: u8 = 6;

pub const TLV_TYPE_METHOD: u8 = 0;

pub const TLV_TYPE_FLAGS: u8 = 0x13;

pub const TLV_TYPE_SALT: u8 = 0x2;

pub const TLV_TYPE_PUBLIC_KEY: u8 = 0x3;

pub const TLV_TYPE_PROOF: u8 = 0x04;

pub const TLV_TYPE_SIGNATURE: u8 = 0x0A;

pub const TLV_TYPE_ENCRYPTED_DATA: u8 = 0x05;

pub const TLV_TYPE_ERROR: u8 = 0x7;

/// A tag and a value of any length.
pub type Item = (u8, Seq<u8>);

/// One record: a tag and at most 255 bytes.
pub open spec fn record(tag: u8, data: Seq<u8>) -> Seq<u8> {
    seq![tag, data.len() as u8] + data
}

/// The records of a value: full ones of 255 bytes, then what is left.
pub open spec fn fragments(tag: u8, value: Seq<u8>) -> Seq<u8>
    decreases value.len(),
{
    if value.len() <= 255 {
        record(tag, value)
    } else {
        record(tag, value.take(255)) + fragments(tag, value.skip(255))
    }
}

/// The records of the items in order.
pub open spec fn encoded(items: Seq<Item>) -> Seq<u8>
    decreases items.len(),
{
    if items.len() == 0 {
        Seq::empty()
    } else {
        encoded(items.drop_last()) + fragments(items.last().0, items.last().1)
    }
}

/// The records at the start of `bytes`, up to the first that is cut short.
pub open spec fn records(bytes: Seq<u8>) -> Seq<Item>
    decreases bytes.len(),
{
    if bytes.len() < 2 || bytes.len() < 2 + bytes[1] {
        Seq::empty()
    } else {
        let end = 2 + bytes[1] as int;
        seq![(bytes[0], bytes.subrange(2, end))] + records(bytes.skip(end))
    }
}

/// `data` appended to what stands under the tag.
pub open spec fn extended(map: Map<u8, Seq<u8>>, tag: u8, data: Seq<u8>) -> Map<u8, Seq<u8>> {
    if map.dom().contains(tag) {
        map.insert(tag, map[tag] + data)
    } else {
        map.insert(tag, data)
    }
}

/// The values under each tag, joined in order onto `map`.
pub open spec fn gathered(map: Map<u8, Seq<u8>>, items: Seq<Item>) -> Map<u8, Seq<u8>>
    decreases items.len(),
{
    if items.len() == 0 {
        map
    } else {
        gathered(extended(map, items[0].0, items[0].1), items.skip(1))
    }
}

/// The values under each tag that `bytes` carries.
pub open spec fn decoded(bytes: Seq<u8>) -> Map<u8, Seq<u8>> {
    gathered(Map::empty(), records(bytes))
}

/// The values of an executable map.
pub open spec fn values_of(map: Map<u8, Vec<u8>>) -> Map<u8, Seq<u8>> {
    map.map_values(|v: Vec<u8>| v@)
}

/// The items of an argument of [`encode`].
pub open spec fn items_of(items: Seq<(u8, &[u8])>) -> Seq<Item> {
    items.map_values(|i: (u8, &[u8])| (i.0, i.1@))
}

/// The items as records, a value over 255 bytes split over records of its tag.
pub fn encode(items: Vec<(u8, &[u8])>) -> (out: Result<Vec<u8>, FerricastError>)
    ensures
        out matches Ok(bytes) && bytes@ == encoded(items_of(items@)),
{
    let mut bytes: Vec<u8> = Vec::new();
    let mut i: usize = 0;
    let ghost all = items_of(items@);
    while i < items.len()
        invariant
            all == items_of(items@),
            i <= items@.len(),
            bytes@ == encoded(all.take(i as int)),
        decreases items@.len() - i,
    {
        let tag: u8 = items[i].0;
        let value: &[u8] = items[i].1;
        let mut at: usize = 0;
        let ghost before = bytes@;
        let len: usize = value.len();
        assert(value@.skip(0) =~= value@);
        while len - at > 255
            invariant
                at <= len == value@.len(),
                bytes@ + fragments(tag, value@.skip(at as int)) == before + fragments(tag, value@),
            decreases len - at,
        {
            let ghost rest = value@.skip(at as int);
            let ghost so_far = bytes@;
            bytes.push(tag);
            bytes.push(255u8);
            push_range(&mut bytes, value, at, at + 255);
            proof {
                assert(rest.take(255) =~= value@.subrange(at as int, at + 255));
                assert(rest.skip(255) =~= value@.skip(at + 255));
                assert(bytes@ =~= so_far + record(tag, rest.take(255)));
                assert(bytes@ + fragments(tag, value@.skip(at + 255)) =~= so_far + fragments(
                    tag,
                    rest,
                ));
            }
            at = at + 255;
        }
        let ghost so_far = bytes@;
        bytes.push(tag);
        bytes.push((len - at) as u8);
        push_range(&mut bytes, value, at, len);
        proof {
            assert(value@.skip(at as int) =~= value@.subrange(at as int, len as int));
            assert(bytes@ =~= so_far + fragments(tag, value@.skip(at as int)));
            let next = all.take(i + 1);
            assert(next.drop_last() =~= all.take(i as int));
            assert(next.last() == (tag, value@));
        }
        i = i + 1;
    }
    assert(all.take(all.len() as int) =~= all);
    Ok(bytes)
}

/// The values under each tag, joined over the records of that tag. A record
/// that is cut short ends the reading; an error record is reported as such.
pub fn decode(bytes: &[u8]) -> (out: Result<HashMap<u8, Vec<u8>>, FerricastError>)
    ensures
        match out {
            Ok(map) => values_of(map@) == decoded(bytes@) && !decoded(bytes@).dom().contains(
                TLV_TYPE_ERROR,
            ),
            Err(e) => decoded(bytes@).dom().contains(TLV_TYPE_ERROR) && e.is_tlv(
                "Airplay device send an error, with code "@ + byte_list(
                    decoded(bytes@)[TLV_TYPE_ERROR],
                ),
            ),
        },
{
    broadcast use group_hash_axioms;

    let mut result: HashMap<u8, Vec<u8>> = HashMap::new();
    let mut offset: usize = 0;
    proof {
        assert(bytes@.skip(0) =~= bytes@);
        assert(values_of(result@) =~= Map::<u8, Seq<u8>>::empty());
    }
    let len: usize = bytes.len();
    while len - offset >= 2
        invariant_except_break
            offset <= len == bytes@.len(),
            gathered(values_of(result@), records(bytes@.skip(offset as int))) == decoded(bytes@),
        ensures
            values_of(result@) == decoded(bytes@),
        decreases len - offset,
    {
        let ghost rest = bytes@.skip(offset as int);
        let tag: u8 = bytes[offset];
        let data_len: usize = bytes[offset + 1] as usize;
        if data_len > len - offset - 2 {
            assert(records(rest) =~= Seq::<Item>::empty());
            break;
        }
        let end: usize = offset + 2 + data_len;
        let ghost before = values_of(result@);
        let mut value: Vec<u8> = match result.remove(&tag) {
            Some(v) => v,
            None => Vec::new(),
        };
        push_range(&mut value, bytes, offset + 2, end);
        result.insert(tag, value);
        proof {
            let data = rest.subrange(2, 2 + data_len as int);
            assert(data =~= bytes@.subrange(offset + 2, end as int));
            assert(rest.skip(2 + data_len as int) =~= bytes@.skip(end as int));
            assert(records(rest).skip(1) =~= records(bytes@.skip(end as int)));
            assert(records(rest)[0] == (tag, data));
            assert(values_of(result@) =~= extended(before, tag, data));
        }
        offset = end;
    }
    match result.get(&TLV_TYPE_ERROR) {
        Some(code) => {
            let shown: String = byte_list_text(code.as_slice());
            Err(
                FerricastError::Tlv(
                    join2("Airplay device send an error, with code ", shown.as_str()),
                ),
            )
        },
        None => Ok(result),
    }
}

proof fn lemma_fragments_read(map: Map<u8, Seq<u8>>, tag: u8, value: Seq<u8>, rest: Seq<u8>)
    ensures
        gathered(map, records(fragments(tag, value) + rest)) == gathered(
            extended(map, tag, value),
            records(rest),
        ),
    decreases value.len(),
{
    let data = if value.len() <= 255 {
        value
    } else {
        value.take(255)
    };
    let tail = if value.len() <= 255 {
        rest
    } else {
        fragments(tag, value.skip(255)) + rest
    };
    let all = fragments(tag, value) + rest;
    assert(all =~= record(tag, data) + tail);
    assert(all[0] == tag && all[1] == data.len());
    assert(all.subrange(2, 2 + data.len() as int) =~= data);
    assert(all.skip(2 + data.len() as int) =~= tail);
    assert(records(all) == seq![(tag, data)] + records(tail));
    assert(records(all).skip(1) =~= records(tail));
    if value.len() > 255 {
        lemma_fragments_read(extended(map, tag, data), tag, value.skip(255), rest);
        assert(value.take(255) + value.skip(255) =~= value);
        let base = if map.dom().contains(tag) {
            map[tag]
        } else {
            Seq::empty()
        };
        assert(base + value.take(255) + value.skip(255) =~= base + value);
        assert(extended(extended(map, tag, data), tag, value.skip(255)) =~= extended(
            map,
            tag,
            value,
        ));
    }
}

proof fn lemma_gathered_push(map: Map<u8, Seq<u8>>, items: Seq<Item>)
    requires
        items.len() > 0,
    ensures
        gathered(map, items) == extended(
            gathered(map, items.drop_last()),
            items.last().0,
            items.last().1,
        ),
    decreases items.len(),
{
    if items.len() > 1 {
        let next = extended(map, items[0].0, items[0].1);
        lemma_gathered_push(next, items.skip(1));
        assert(items.skip(1).drop_last() =~= items.drop_last().skip(1));
    } else {
        assert(items.skip(1) =~= Seq::<Item>::empty());
        assert(items.drop_last() =~= Seq::<Item>::empty());
        reveal_with_fuel(gathered, 2);
    }
}

proof fn lemma_encoded_read(items: Seq<Item>, rest: Seq<u8>)
    ensures
        gathered(Map::empty(), records(encoded(items) + rest)) == gathered(
            gathered(Map::empty(), items),
            records(rest),
        ),
    decreases items.len(),
{
    if items.len() == 0 {
        assert(encoded(items) + rest =~= rest);
    } else {
        let last = fragments(items.last().0, items.last().1);
        assert(encoded(items) + rest =~= encoded(items.drop_last()) + (last + rest));
        lemma_encoded_read(items.drop_last(), last + rest);
        lemma_fragments_read(
            gathered(Map::empty(), items.drop_last()),
            items.last().0,
            items.last().1,
            rest,
        );
        lemma_gathered_push(Map::empty(), items);
    }
}

/// What [`encode`] wrote [`decode`] reads back: under each tag the values of
/// that tag, joined in order.
pub proof fn decode_of_encode(items: Seq<Item>)
    ensures
        decoded(encoded(items)) == gathered(Map::empty(), items),
{
    lemma_encoded_read(items, Seq::empty());
    assert(encoded(items) + Seq::<u8>::empty() =~= encoded(items));
}

/// An item with a tag of its own is read back as it was written.
pub proof fn decode_gives_distinct_item(items: Seq<Item>, i: int)
    requires
        0 <= i < items.len(),
        forall|j: int| 0 <= j < items.len() && j != i ==> items[j].0 != items[i].0,
    ensures
        decoded(encoded(items)).dom().contains(items[i].0),
        decoded(encoded(items))[items[i].0] == items[i].1,
{
    decode_of_encode(items);
    lemma_gathered_single(Map::empty(), items, i);
}

proof fn lemma_gathered_other(map: Map<u8, Seq<u8>>, items: Seq<Item>, tag: u8)
    requires
        forall|j: int| 0 <= j < items.len() ==> items[j].0 != tag,
    ensures
        gathered(map, items).dom().contains(tag) == map.dom().contains(tag),
        gathered(map, items)[tag] == map[tag],
    decreases items.len(),
{
    if items.len() > 0 {
        let next = extended(map, items[0].0, items[0].1);
        lemma_gathered_other(next, items.skip(1), tag);
    }
}

proof fn lemma_gathered_single(map: Map<u8, Seq<u8>>, items: Seq<Item>, i: int)
    requires
        0 <= i < items.len(),
        forall|j: int| 0 <= j < items.len() && j != i ==> items[j].0 != items[i].0,
        !map.dom().contains(items[i].0),
    ensures
        gathered(map, items).dom().contains(items[i].0),
        gathered(map, items)[items[i].0] == items[i].1,
    decreases items.len(),
{
    let next = extended(map, items[0].0, items[0].1);
    if i == 0 {
        lemma_gathered_other(next, items.skip(1), items[0].0);
    } else {
        lemma_gathered_single(next, items.skip(1), i - 1);
    }
}

/// The tags of the records are those of the pairing protocol.
pub proof fn tags_are_the_protocols()
    ensures
        TLV_TYPE_METHOD == 0,
        TLV_TYPE_IDENTIFIER == 1,
        TLV_TYPE_SALT == 2,
        TLV_TYPE_PUBLIC_KEY == 3,
        TLV_TYPE_PROOF == 4,
        TLV_TYPE_ENCRYPTED_DATA == 5,
        TLV_TYPE_STATE == 6,
        TLV_TYPE_ERROR == 7,
        TLV_TYPE_SIGNATURE == 10,
        TLV_TYPE_FLAGS == 19,
{
}

/// On the wire a value of up to 255 bytes is one record: its tag, its length
/// and its bytes. A longer one goes on in records of the same tag, all full but
/// the last.
pub proof fn records_stand_on_the_wire(tag: u8, value: Seq<u8>)
    ensures
        value.len() <= 255 ==> fragments(tag, value) == seq![tag, value.len() as u8] + value,
        value.len() > 255 ==> fragments(tag, value).len() > 257 && fragments(tag, value).take(257)
            == seq![tag, 255u8] + value.take(255) && fragments(tag, value).skip(257) == fragments(
            tag,
            value.skip(255),
        ),
{
    if value.len() > 255 {
        let first = record(tag, value.take(255));
        let rest = fragments(tag, value.skip(255));
        lemma_fragments_len(tag, value.skip(255));
        assert(first.len() == 257);
        assert(fragments(tag, value) =~= first + rest);
        assert(fragments(tag, value).take(257) =~= first);
        assert(fragments(tag, value).skip(257) =~= rest);
    }
}

proof fn lemma_fragments_len(tag: u8, value: Seq<u8>)
    ensures
        fragments(tag, value).len() >= 2,
    decreases value.len(),
{
    if value.len() > 255 {
        lemma_fragments_len(tag, value.skip(255));
    }
}

/// A message of items with tags of their own holds those tags and no others.
pub proof fn only_given_tags_are_decoded(items: Seq<Item>, tag: u8)
    requires
        forall|i: int| 0 <= i < items.len() ==> (#[trigger] items[i]).0 != tag,
    ensures
        !decoded(encoded(items)).dom().contains(tag),
{
    decode_of_encode(items);
    lemma_gathered_other(Map::empty(), items, tag);
}

/// A message that ends within a record loses that record and nothing in front
/// of it.
pub proof fn cut_records_end_the_reading(tag: u8, len: u8, part: Seq<u8>)
    requires
        part.len() < len,
    ensures
        records(seq![tag, len] + part) == Seq::<Item>::empty(),
        records(seq![tag]) == Seq::<Item>::empty(),
{
    assert((seq![tag, len] + part)[1] == len);
}

} // verus!
