//! Byte strings as numbers: fixed width and minimal width encodings.

use vstd::prelude::*;

verus! {

/// The `width` low bytes of `value`, most significant first.
pub open spec fn be_bytes(value: nat, width: nat) -> Seq<u8>
    decreases width,
{
    if width == 0 {
        Seq::empty()
    } else {
        be_bytes(value / 256, (width - 1) as nat).push((value % 256) as u8)
    }
}

/// The number that `bytes` spells, most significant byte first.
pub open spec fn be_value(bytes: Seq<u8>) -> nat
    decreases bytes.len(),
{
    if bytes.len() == 0 {
        0
    } else {
        be_value(bytes.drop_last()) * 256 + bytes.last() as nat
    }
}

/// The number that `bytes` spells, least significant byte first.
pub open spec fn le_value(bytes: Seq<u8>) -> nat
    decreases bytes.len(),
{
    if bytes.len() == 0 {
        0
    } else {
        bytes[0] as nat + 256 * le_value(bytes.skip(1))
    }
}

/// The shortest big endian spelling of `value`; zero is one zero byte.
pub open spec fn be_min(value: nat) -> Seq<u8>
    decreases value,
{
    if value < 256 {
        seq![value as u8]
    } else {
        be_min(value / 256).push((value % 256) as u8)
    }
}

/// 256 to the power `n`.
pub open spec fn pow256(n: nat) -> nat
    decreases n,
{
    if n == 0 {
        1
    } else {
        256 * pow256((n - 1) as nat)
    }
}

/// `data` with zero bytes in front up to `size` bytes, or `data` itself if it
/// is that long already.
pub open spec fn padded(data: Seq<u8>, size: nat) -> Seq<u8> {
    if data.len() >= size {
        data
    } else {
        Seq::new((size - data.len()) as nat, |i: int| 0u8) + data
    }
}

pub proof fn lemma_be_bytes_len(value: nat, width: nat)
    ensures
        be_bytes(value, width).len() == width,
    decreases width,
{
    if width > 0 {
        lemma_be_bytes_len(value / 256, (width - 1) as nat);
    }
}

/// A number that fits the width is read back from its encoding.
pub proof fn be_bytes_round_trip(value: nat, width: nat)
    requires
        value < pow256(width),
    ensures
        be_value(be_bytes(value, width)) == value,
    decreases width,
{
    if width > 0 {
        let w = (width - 1) as nat;
        assert(value / 256 < pow256(w)) by (nonlinear_arith)
            requires
                value < 256 * pow256(w),
        ;
        be_bytes_round_trip(value / 256, w);
        assert(be_bytes(value, width).drop_last() =~= be_bytes(value / 256, w));
    }
}

pub proof fn lemma_be_value_one(bytes: Seq<u8>)
    requires
        bytes.len() == 1,
    ensures
        be_value(bytes) == bytes[0],
{
    assert(bytes.drop_last() =~= Seq::<u8>::empty());
    reveal_with_fuel(be_value, 2);
}

/// The shortest spelling of a number spells that number.
pub proof fn be_min_round_trip(value: nat)
    ensures
        be_value(be_min(value)) == value,
    decreases value,
{
    if value < 256 {
        lemma_be_value_one(be_min(value));
    } else {
        be_min_round_trip(value / 256);
        assert(be_min(value).drop_last() =~= be_min(value / 256));
    }
}

pub proof fn lemma_be_value_bound(bytes: Seq<u8>)
    ensures
        be_value(bytes) < pow256(bytes.len()),
    decreases bytes.len(),
{
    if bytes.len() > 0 {
        lemma_be_value_bound(bytes.drop_last());
    }
}

pub proof fn lemma_le_value_bound(bytes: Seq<u8>)
    ensures
        le_value(bytes) < pow256(bytes.len()),
    decreases bytes.len(),
{
    if bytes.len() > 0 {
        lemma_le_value_bound(bytes.skip(1));
    }
}

pub proof fn lemma_pow256_small()
    ensures
        pow256(1) == 0x100,
        pow256(2) == 0x1_0000,
        pow256(3) == 0x100_0000,
        pow256(4) == 0x1_0000_0000,
        pow256(8) == 0x1_0000_0000_0000_0000,
{
    reveal_with_fuel(pow256, 9);
}

/// Appends the `width` low bytes of `value`, most significant first.
pub fn push_be(out: &mut Vec<u8>, value: u64, width: usize)
    ensures
        final(out)@ == old(out)@ + be_bytes(value as nat, width as nat),
    decreases width,
{
    if width == 0 {
        assert(out@ =~= old(out)@ + be_bytes(value as nat, 0));
    } else {
        push_be(out, value / 256, width - 1);
        out.push((value % 256) as u8);
        assert(out@ =~= old(out)@ + be_bytes(value as nat, width as nat));
    }
}

/// The number that `width` bytes from `start` on spell, most significant first.
pub fn read_be(bytes: &[u8], start: usize, width: usize) -> (value: u64)
    requires
        width <= 8,
        start + width <= bytes@.len(),
    ensures
        value == be_value(bytes@.subrange(start as int, start + width)),
{
    let len: usize = bytes.len();
    let mut value: u64 = 0;
    let mut i: usize = 0;
    while i < width
        invariant
            width <= 8,
            i <= width,
            start + width <= bytes@.len() == len,
            value == be_value(bytes@.subrange(start as int, start + i)),
        decreases width - i,
    {
        let ghost taken = bytes@.subrange(start as int, start + i);
        let ghost more = bytes@.subrange(start as int, start + i + 1);
        proof {
            assert(more.drop_last() =~= taken);
            lemma_be_value_bound(more);
            lemma_pow256_monotone((i + 1) as nat, 8);
            lemma_pow256_small();
        }
        value = value * 256 + bytes[start + i] as u64;
        i = i + 1;
    }
    value
}

pub proof fn lemma_pow256_monotone(a: nat, b: nat)
    requires
        a <= b,
    ensures
        pow256(a) <= pow256(b),
    decreases b,
{
    if a < b {
        lemma_pow256_monotone(a, (b - 1) as nat);
    }
}

/// The number that `width` bytes from `start` on spell, least significant first.
pub fn read_le(bytes: &[u8], start: usize, width: usize) -> (value: u64)
    requires
        width <= 8,
        start + width <= bytes@.len(),
    ensures
        value == le_value(bytes@.subrange(start as int, start + width)),
    decreases width,
{
    if width == 0 {
        0
    } else {
        let ghost all = bytes@.subrange(start as int, start + width);
        let len: usize = bytes.len();
        assert(start < len);
        let rest: u64 = read_le(bytes, start + 1, width - 1);
        proof {
            assert(all.skip(1) =~= bytes@.subrange(start + 1, start + width));
            lemma_le_value_bound(all.skip(1));
            lemma_le_value_bound(all);
            lemma_pow256_monotone(width as nat, 8);
            lemma_pow256_small();
        }
        bytes[start] as u64 + 256 * rest
    }
}

/// A copy of `bytes[from..to]`.
pub fn copy_range(bytes: &[u8], from: usize, to: usize) -> (out: Vec<u8>)
    requires
        from <= to <= bytes@.len(),
    ensures
        out@ == bytes@.subrange(from as int, to as int),
{
    let mut out: Vec<u8> = Vec::new();
    push_range(&mut out, bytes, from, to);
    assert(out@ =~= bytes@.subrange(from as int, to as int));
    out
}

/// Appends `bytes[from..to]`.
pub fn push_range(out: &mut Vec<u8>, bytes: &[u8], from: usize, to: usize)
    requires
        from <= to <= bytes@.len(),
    ensures
        final(out)@ == old(out)@ + bytes@.subrange(from as int, to as int),
{
    let mut i: usize = from;
    while i < to
        invariant
            from <= i <= to <= bytes@.len(),
            out@ == old(out)@ + bytes@.subrange(from as int, i as int),
        decreases to - i,
    {
        out.push(bytes[i]);
        i = i + 1;
        assert(out@ =~= old(out)@ + bytes@.subrange(from as int, i as int));
    }
    assert(out@ =~= old(out)@ + bytes@.subrange(from as int, to as int));
}

/// Appends all of `bytes`.
pub fn push_all(out: &mut Vec<u8>, bytes: &[u8])
    ensures
        final(out)@ == old(out)@ + bytes@,
{
    push_range(out, bytes, 0, bytes.len());
    assert(bytes@.subrange(0, bytes@.len() as int) =~= bytes@);
}

/// Whether the two byte strings are equal.
pub fn bytes_eq(a: &[u8], b: &[u8]) -> (same: bool)
    ensures
        same == (a@ == b@),
{
    if a.len() != b.len() {
        return false;
    }
    let mut i: usize = 0;
    while i < a.len()
        invariant
            i <= a@.len() == b@.len(),
            forall|k: int| 0 <= k < i ==> a@[k] == b@[k],
        decreases a@.len() - i,
    {
        if a[i] != b[i] {
            return false;
        }
        i = i + 1;
    }
    assert(a@ =~= b@);
    true
}

/// Each byte of one string combined with that of the other by exclusive or.
pub open spec fn xored(a: Seq<u8>, b: Seq<u8>) -> Seq<u8> {
    Seq::new(a.len(), |i: int| a[i] ^ b[i])
}

/// Each byte of one string combined with that of the other by exclusive or.
pub fn xor_bytes(a: &[u8], b: &[u8]) -> (out: Vec<u8>)
    requires
        a@.len() == b@.len(),
    ensures
        out@ == xored(a@, b@),
{
    let mut out: Vec<u8> = Vec::new();
    let mut i: usize = 0;
    while i < a.len()
        invariant
            i <= a@.len() == b@.len(),
            out@ == xored(a@, b@).take(i as int),
        decreases a@.len() - i,
    {
        out.push(a[i] ^ b[i]);
        i = i + 1;
        assert(out@ =~= xored(a@, b@).take(i as int));
    }
    assert(out@ =~= xored(a@, b@));
    out
}

/// Whether every byte is zero.
pub fn all_zero(bytes: &[u8]) -> (zero: bool)
    ensures
        zero == (be_value(bytes@) == 0),
{
    let mut i: usize = 0;
    proof {
        assert(bytes@.subrange(0, 0) =~= Seq::<u8>::empty());
    }
    while i < bytes.len()
        invariant
            i <= bytes@.len(),
            be_value(bytes@.subrange(0, i as int)) == 0,
        decreases bytes@.len() - i,
    {
        proof {
            assert(bytes@.subrange(0, i + 1).drop_last() =~= bytes@.subrange(0, i as int));
        }
        if bytes[i] != 0 {
            proof {
                lemma_be_value_prefix(bytes@, i + 1);
            }
            return false;
        }
        i = i + 1;
    }
    assert(bytes@.subrange(0, bytes@.len() as int) =~= bytes@);
    true
}

/// Cutting low bytes off cannot make a number larger.
proof fn lemma_be_value_prefix(bytes: Seq<u8>, n: int)
    requires
        0 <= n <= bytes.len(),
    ensures
        be_value(bytes.subrange(0, n)) <= be_value(bytes),
    decreases bytes.len() - n,
{
    if n < bytes.len() {
        lemma_be_value_prefix(bytes, n + 1);
        assert(bytes.subrange(0, n + 1).drop_last() =~= bytes.subrange(0, n));
    } else {
        assert(bytes.subrange(0, n) =~= bytes);
    }
}

/// `data` with zero bytes in front up to `size` bytes; longer data is kept.
pub fn pad_to(data: Vec<u8>, size: usize) -> (out: Vec<u8>)
    ensures
        out@ == padded(data@, size as nat),
{
    if data.len() >= size {
        return data;
    }
    let mut out: Vec<u8> = Vec::new();
    let gap: usize = size - data.len();
    while out.len() < gap
        invariant
            gap + data@.len() == size,
            out@.len() <= gap,
            out@ == Seq::new(out@.len(), |i: int| 0u8),
        decreases gap - out@.len(),
    {
        out.push(0u8);
        assert(out@ =~= Seq::new(out@.len(), |i: int| 0u8));
    }
    push_all(&mut out, data.as_slice());
    out
}

/// Padding changes neither the number nor a long string, and reaches the size.
pub proof fn padding_keeps_value(data: Seq<u8>, size: nat)
    ensures
        be_value(padded(data, size)) == be_value(data),
        padded(data, size).len() == if data.len() >= size { data.len() } else { size },
    decreases data.len(),
{
    if data.len() < size {
        let p = padded(data, size);
        if data.len() == 0 {
            lemma_zeros_value(size);
            assert(p =~= Seq::new(size, |i: int| 0u8));
        } else {
            padding_keeps_value(data.drop_last(), (size - 1) as nat);
            assert(p.drop_last() =~= padded(data.drop_last(), (size - 1) as nat));
            assert(p.last() == data.last());
        }
    }
}

proof fn lemma_zeros_value(n: nat)
    ensures
        be_value(Seq::new(n, |i: int| 0u8)) == 0,
    decreases n,
{
    if n > 0 {
        lemma_zeros_value((n - 1) as nat);
        assert(Seq::new(n, |i: int| 0u8).drop_last() =~= Seq::new((n - 1) as nat, |i: int| 0u8));
    }
}

/// The bytes of a number go from the most significant one to the least: each
/// counts 256 times as much as the next.
pub proof fn first_byte_counts_most(bytes: Seq<u8>, i: int)
    requires
        0 <= i < bytes.len(),
    ensures
        be_value(bytes) / pow256((bytes.len() - 1 - i) as nat) % 256 == bytes[i],
        le_value(bytes) / pow256(i as nat) % 256 == bytes[i],
    decreases bytes.len(),
{
    lemma_be_place(bytes, i);
    lemma_le_place(bytes, i);
}

proof fn lemma_be_place(bytes: Seq<u8>, i: int)
    requires
        0 <= i < bytes.len(),
    ensures
        be_value(bytes) / pow256((bytes.len() - 1 - i) as nat) % 256 == bytes[i],
    decreases bytes.len(),
{
    let last = bytes.last() as nat;
    let high = be_value(bytes.drop_last());
    if i == bytes.len() - 1 {
        assert(pow256(0) == 1);
        assert(be_value(bytes) / 1 == high * 256 + last);
        assert((high * 256 + last) % 256 == last) by (nonlinear_arith)
            requires
                last < 256,
        ;
    } else {
        let k = (bytes.len() - 2 - i) as nat;
        lemma_be_place(bytes.drop_last(), i);
        lemma_pow256_positive(k);
        let p = pow256(k);
        assert(pow256(k + 1) == 256 * p);
        vstd::arithmetic::div_mod::lemma_div_denominator((high * 256 + last) as int, 256, p as int);
        assert((high * 256 + last) / 256 == high) by (nonlinear_arith)
            requires
                last < 256,
        ;
        assert(be_value(bytes) as int / (256 * p as int) == high as int / p as int);
        assert(bytes.drop_last()[i] == bytes[i]);
    }
}

proof fn lemma_le_place(bytes: Seq<u8>, i: int)
    requires
        0 <= i < bytes.len(),
    ensures
        le_value(bytes) / pow256(i as nat) % 256 == bytes[i],
    decreases bytes.len(),
{
    let first = bytes[0] as nat;
    let high = le_value(bytes.skip(1));
    if i == 0 {
        assert(pow256(0) == 1);
        assert(le_value(bytes) / 1 == first + 256 * high);
        assert((first + 256 * high) % 256 == first) by (nonlinear_arith)
            requires
                first < 256,
        ;
    } else {
        lemma_le_place(bytes.skip(1), i - 1);
        let k = (i - 1) as nat;
        lemma_pow256_positive(k);
        let p = pow256(k);
        assert(pow256(k + 1) == 256 * p);
        vstd::arithmetic::div_mod::lemma_div_denominator((first + 256 * high) as int, 256, p as int);
        assert((first + 256 * high) / 256 == high) by (nonlinear_arith)
            requires
                first < 256,
        ;
        assert(le_value(bytes) as int / (256 * p as int) == high as int / p as int);
        assert(bytes.skip(1)[i - 1] == bytes[i]);
    }
}

proof fn lemma_pow256_positive(n: nat)
    ensures
        pow256(n) > 0,
    decreases n,
{
    if n > 0 {
        lemma_pow256_positive((n - 1) as nat);
    }
}

/// Combining with the same bytes again gives the first ones back.
pub proof fn xor_undoes_itself(a: Seq<u8>, b: Seq<u8>)
    requires
        a.len() == b.len(),
    ensures
        xored(xored(a, b), b) == a,
        xored(a, a) == Seq::new(a.len(), |i: int| 0u8),
{
    assert forall|i: int| 0 <= i < a.len() implies xored(xored(a, b), b)[i] == a[i] && xored(
        a,
        a,
    )[i] == 0 by {
        let x = a[i];
        let y = b[i];
        assert((x ^ y) ^ y == x && x ^ x == 0) by (bit_vector);
    }
    assert(xored(xored(a, b), b) =~= a);
    assert(xored(a, a) =~= Seq::new(a.len(), |i: int| 0u8));
}

} // verus!
