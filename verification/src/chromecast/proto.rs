//! Protocol buffer fields on byte strings: what each kind of field looks like
//! on the wire, and how one is read back.

use vstd::prelude::*;
use vstd::utf8::{decode_utf8, encode_utf8, valid_utf8};

verus! {

/// The error of prost on bytes that are no message.
#[verifier::external_type_specification]
#[verifier::external_body]
pub struct ExDecodeError(prost::DecodeError);

/// `n` in groups of seven bits, the low ones first, the top bit set on all
/// bytes but the last.
pub open spec fn varint(n: nat) -> Seq<u8>
    decreases n,
{
    if n < 128 {
        seq![n as u8]
    } else {
        seq![(n % 128 + 128) as u8] + varint(n / 128)
    }
}

/// The number that `bytes` starts with and how many bytes it takes, where it
/// ends within `room` bytes. Ten bytes hold 64 bits: the tenth is zero or one.
pub open spec fn varint_read(bytes: Seq<u8>, room: nat) -> Option<(nat, nat)>
    decreases room,
{
    if bytes.len() == 0 || room == 0 {
        None
    } else if bytes[0] < 128 {
        if room == 1 && bytes[0] >= 2 {
            None
        } else {
            Some((bytes[0] as nat, 1))
        }
    } else {
        match varint_read(bytes.skip(1), (room - 1) as nat) {
            Some((high, n)) => Some(((bytes[0] - 128 + 128 * high) as nat, n + 1)),
            None => None,
        }
    }
}

/// The wire type of numbers.
pub const WIRE_VARINT: u8 = 0;

/// The wire type of byte strings with their length.
pub const WIRE_BYTES: u8 = 2;

/// The key in front of a field.
pub open spec fn field_key(tag: u32, wire_type: u8) -> Seq<u8> {
    varint(tag as nat * 8 + wire_type as nat)
}

/// The key that `bytes` starts with: tag, wire type and how many bytes it takes.
pub open spec fn key_read(bytes: Seq<u8>) -> Option<(u32, u8, nat)> {
    match varint_read(bytes, 10) {
        Some((v, n)) => if v <= u32::MAX && v % 8 <= 5 && v / 8 >= 1 {
            Some(((v / 8) as u32, (v % 8) as u8, n))
        } else {
            None
        },
        None => None,
    }
}

/// A signed number as the 64 bits that stand for it.
pub open spec fn sign_extended(v: i32) -> nat {
    if v < 0 {
        (v + 0x1_0000_0000_0000_0000) as nat
    } else {
        v as nat
    }
}

/// The low 32 bits of a number as a signed one.
pub open spec fn low_signed(v: nat) -> i32 {
    let low = v % 0x1_0000_0000;
    if low < 0x8000_0000 {
        low as i32
    } else {
        (low - 0x1_0000_0000) as i32
    }
}

/// A field that holds a number.
pub open spec fn number_field(tag: u32, v: i32) -> Seq<u8> {
    field_key(tag, WIRE_VARINT) + varint(sign_extended(v))
}

/// A field that holds bytes.
pub open spec fn bytes_field(tag: u32, data: Seq<u8>) -> Seq<u8> {
    field_key(tag, WIRE_BYTES) + varint(data.len()) + data
}

/// The bytes of a field behind its key, and how many bytes they take with
/// their length.
pub open spec fn bytes_read(wire_type: u8, bytes: Seq<u8>) -> Option<(Seq<u8>, nat)> {
    if wire_type != WIRE_BYTES {
        None
    } else {
        match varint_read(bytes, 10) {
            Some((len, n)) => if n + len <= bytes.len() {
                Some((bytes.subrange(n as int, (n + len) as int), n + len))
            } else {
                None
            },
            None => None,
        }
    }
}

/// How many bytes a group of fields takes up to and with its end mark.
pub uninterp spec fn group_len(tag: u32, bytes: Seq<u8>) -> Option<nat>;

/// How many bytes a field that nobody knows takes behind its key.
pub open spec fn skip_len(wire_type: u8, tag: u32, bytes: Seq<u8>) -> Option<nat> {
    let end = if wire_type == 0 {
        match varint_read(bytes, 10) {
            Some((_, n)) => Some(n),
            None => None,
        }
    } else if wire_type == 1 {
        Some(8nat)
    } else if wire_type == 2 {
        match varint_read(bytes, 10) {
            Some((len, n)) => Some(n + len),
            None => None,
        }
    } else if wire_type == 3 {
        group_len(tag, bytes)
    } else if wire_type == 5 {
        Some(4nat)
    } else {
        None
    };
    match end {
        Some(n) => if n <= bytes.len() {
            Some(n)
        } else {
            None
        },
        None => None,
    }
}

/// `prost::encoding::int32::encode` appends a number field.
#[verifier::external_body]
pub(crate) fn put_number(out: &mut Vec<u8>, tag: u32, v: i32)
    requires
        1 <= tag < 0x2000_0000,
    ensures
        final(out)@ == old(out)@ + number_field(tag, v),
{
    prost::encoding::int32::encode(tag, &v, out);
}

/// `prost::encoding::string::encode` appends a bytes field with the text in UTF-8.
#[verifier::external_body]
pub(crate) fn put_text(out: &mut Vec<u8>, tag: u32, text: &String)
    requires
        1 <= tag < 0x2000_0000,
    ensures
        final(out)@ == old(out)@ + bytes_field(tag, encode_utf8(text@)),
{
    prost::encoding::string::encode(tag, text, out);
}

/// `prost::encoding::bytes::encode` appends a bytes field.
#[verifier::external_body]
pub(crate) fn put_bytes(out: &mut Vec<u8>, tag: u32, data: &Vec<u8>)
    requires
        1 <= tag < 0x2000_0000,
    ensures
        final(out)@ == old(out)@ + bytes_field(tag, data@),
{
    prost::encoding::bytes::encode(tag, data, out);
}

/// `prost::encoding::decode_key` reads the key in front of a field.
#[verifier::external_body]
pub(crate) fn take_key(bytes: &[u8]) -> (out: Result<(u32, u8, &[u8]), prost::DecodeError>)
    ensures
        match out {
            Ok(k) => key_read(bytes@) matches Some(r) && k.0 == r.0 && k.1 == r.1 && k.2@
                == bytes@.skip(r.2 as int),
            Err(_) => key_read(bytes@) is None,
        },
{
    let mut rest: &[u8] = bytes;
    let (tag, wire_type) = prost::encoding::decode_key(&mut rest)?;
    Ok((tag, wire_type as u8, rest))
}

/// `prost::encoding::int32::merge` reads a number behind its key: any number
/// of 64 bits, of which the low 32 are kept.
#[verifier::external_body]
pub(crate) fn take_number(wire_type: u8, bytes: &[u8]) -> (out: Result<
    (i32, &[u8]),
    prost::DecodeError,
>)
    requires
        wire_type <= 5,
    ensures
        match out {
            Ok(v) => wire_type == WIRE_VARINT && (varint_read(bytes@, 10) matches Some(r) && v.0
                == low_signed(r.0) && v.1@ == bytes@.skip(r.1 as int)),
            Err(_) => wire_type != WIRE_VARINT || varint_read(bytes@, 10) is None,
        },
{
    let wire_type = prost::encoding::WireType::try_from(wire_type as u64)?;
    let mut rest: &[u8] = bytes;
    let mut value: i32 = 0;
    prost::encoding::int32::merge(wire_type, &mut value, &mut rest, Default::default())?;
    Ok((value, rest))
}

/// `prost::encoding::string::merge` reads text behind its key: bytes with
/// their length that are valid UTF-8.
#[verifier::external_body]
pub(crate) fn take_text(wire_type: u8, bytes: &[u8]) -> (out: Result<
    (String, &[u8]),
    prost::DecodeError,
>)
    requires
        wire_type <= 5,
    ensures
        match out {
            Ok(v) => bytes_read(wire_type, bytes@) matches Some(r) && valid_utf8(r.0) && v.0@
                == decode_utf8(r.0) && v.1@ == bytes@.skip(r.1 as int),
            Err(_) => match bytes_read(wire_type, bytes@) {
                Some(r) => !valid_utf8(r.0),
                None => true,
            },
        },
{
    let wire_type = prost::encoding::WireType::try_from(wire_type as u64)?;
    let mut rest: &[u8] = bytes;
    let mut value = String::new();
    prost::encoding::string::merge(wire_type, &mut value, &mut rest, Default::default())?;
    Ok((value, rest))
}

/// `prost::encoding::bytes::merge` reads bytes with their length behind their key.
#[verifier::external_body]
pub(crate) fn take_bytes(wire_type: u8, bytes: &[u8]) -> (out: Result<
    (Vec<u8>, &[u8]),
    prost::DecodeError,
>)
    requires
        wire_type <= 5,
    ensures
        match out {
            Ok(v) => bytes_read(wire_type, bytes@) matches Some(r) && v.0@ == r.0 && v.1@
                == bytes@.skip(r.1 as int),
            Err(_) => bytes_read(wire_type, bytes@) is None,
        },
{
    let wire_type = prost::encoding::WireType::try_from(wire_type as u64)?;
    let mut rest: &[u8] = bytes;
    let mut value: Vec<u8> = Vec::new();
    prost::encoding::bytes::merge(wire_type, &mut value, &mut rest, Default::default())?;
    Ok((value, rest))
}

/// `prost::encoding::skip_field` passes over a field behind its key. How long
/// a group of fields is depends on the tag and the bytes alone; beyond that
/// nothing is said of groups.
#[verifier::external_body]
pub(crate) fn pass_field(wire_type: u8, tag: u32, bytes: &[u8]) -> (out: Result<
    &[u8],
    prost::DecodeError,
>)
    requires
        wire_type <= 5,
    ensures
        match out {
            Ok(rest) => skip_len(wire_type, tag, bytes@) matches Some(n) && rest@ == bytes@.skip(
                n as int,
            ),
            Err(_) => skip_len(wire_type, tag, bytes@) is None,
        },
        wire_type == 3 && out is Ok ==> group_len(tag, bytes@) == Some(
            (bytes@.len() - out->Ok_0@.len()) as nat,
        ),
{
    let wire_type = prost::encoding::WireType::try_from(wire_type as u64)?;
    let mut rest: &[u8] = bytes;
    prost::encoding::skip_field(wire_type, tag, &mut rest, Default::default())?;
    Ok(rest)
}

pub proof fn lemma_varint_read(bytes: Seq<u8>, room: nat)
    ensures
        varint_read(bytes, room) matches Some(r) ==> 1 <= r.1 <= room && r.1 <= bytes.len(),
    decreases room,
{
    if bytes.len() > 0 && room > 0 && bytes[0] >= 128 {
        lemma_varint_read(bytes.skip(1), (room - 1) as nat);
    }
}

/// 128 to the power `n`.
spec fn pow128(n: nat) -> nat
    decreases n,
{
    if n == 0 {
        1
    } else {
        128 * pow128((n - 1) as nat)
    }
}

/// A number that fits in 64 bits is read back from its groups.
pub proof fn varint_round_trip(n: nat, rest: Seq<u8>)
    requires
        n <= u64::MAX,
    ensures
        varint_read(varint(n) + rest, 10) == Some((n, varint(n).len())),
{
    reveal_with_fuel(pow128, 11);
    lemma_varint_room(n, rest, 10);
}

proof fn lemma_varint_room(n: nat, rest: Seq<u8>, room: nat)
    requires
        room >= 1,
        n < 2 * pow128((room - 1) as nat),
    ensures
        varint_read(varint(n) + rest, room) == Some((n, varint(n).len())),
    decreases room,
{
    let all = varint(n) + rest;
    if n < 128 {
        assert(all[0] == n as u8);
        if room == 1 {
            assert(pow128(0) == 1);
        }
    } else {
        if room == 1 {
            assert(pow128(0) == 1);
        }
        let r = (room - 1) as nat;
        assert(pow128(r) == 128 * pow128((r - 1) as nat));
        assert(n / 128 < 2 * pow128((r - 1) as nat));
        lemma_varint_room(n / 128, rest, r);
        assert(all.skip(1) =~= varint(n / 128) + rest);
        assert(all[0] == (n % 128 + 128) as u8);
    }
}

/// A key is read back.
pub proof fn key_round_trip(tag: u32, wire_type: u8, rest: Seq<u8>)
    requires
        1 <= tag < 0x2000_0000,
        wire_type <= 5,
    ensures
        key_read(field_key(tag, wire_type) + rest) == Some(
            (tag, wire_type, field_key(tag, wire_type).len()),
        ),
{
    varint_round_trip(tag as nat * 8 + wire_type as nat, rest);
}

/// The bytes of a field are read back.
pub proof fn bytes_round_trip(data: Seq<u8>, rest: Seq<u8>)
    requires
        data.len() <= u64::MAX,
    ensures
        bytes_read(WIRE_BYTES, varint(data.len()) + data + rest) == Some(
            (data, varint(data.len()).len() + data.len()),
        ),
{
    let head = varint(data.len());
    assert(head + data + rest =~= head + (data + rest));
    varint_round_trip(data.len(), data + rest);
    assert((head + data + rest).subrange(head.len() as int, (head.len() + data.len()) as int)
        =~= data);
}

/// A signed number is read back from its 64 bits.
pub proof fn number_round_trip(v: i32)
    ensures
        sign_extended(v) <= u64::MAX,
        low_signed(sign_extended(v)) == v,
{
}

/// A number goes out in groups of seven bits, the lowest first, with the top bit
/// on every byte but the last; no byte more than are needed.
pub proof fn numbers_go_out_in_groups_of_seven(n: nat)
    ensures
        varint(n).len() >= 1,
        n < 128 ==> varint(n) == seq![n as u8],
        n >= 128 ==> varint(n)[0] == n % 128 + 128 && varint(n).skip(1) == varint(n / 128),
        varint(n).last() < 128,
    decreases n,
{
    if n >= 128 {
        numbers_go_out_in_groups_of_seven(n / 128);
        assert(varint(n).skip(1) =~= varint(n / 128));
        assert(varint(n).last() == varint(n / 128).last());
    }
}

/// The number of a field and the kind of its value stand in front of it, the
/// number in the high bits; numbers are of kind zero, texts and bytes of kind
/// two with their length in front.
pub proof fn fields_go_out_by_the_book(tag: u32, v: i32, data: Seq<u8>)
    requires
        1 <= tag < 16,
    ensures
        v >= 0 ==> number_field(tag, v) == seq![(tag * 8) as u8] + varint(v as nat),
        bytes_field(tag, data) == seq![(tag * 8 + 2) as u8] + varint(data.len()) + data,
{
    numbers_go_out_in_groups_of_seven((tag * 8) as nat);
    numbers_go_out_in_groups_of_seven((tag * 8 + 2) as nat);
}

} // verus!
