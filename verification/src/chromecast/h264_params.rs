//! The parameter sets of an H.264 stream, out of its Annex B form.

use vstd::prelude::*;

use crate::octets::push_range;

verus! {

/// How long the start code at `i` is; zero where there is none.
pub open spec fn start_code(buf: Seq<u8>, i: int) -> int {
    if i < 0 || i + 3 > buf.len() || buf[i] != 0 || buf[i + 1] != 0 {
        0
    } else if buf[i + 2] == 1 {
        3
    } else if i + 4 <= buf.len() && buf[i + 2] == 0 && buf[i + 3] == 1 {
        4
    } else {
        0
    }
}

/// The start codes from `i` on: where each stands and how long it is.
pub open spec fn start_codes(buf: Seq<u8>, i: int) -> Seq<(int, int)>
    decreases buf.len() - i,
{
    if i < 0 || i + 3 > buf.len() {
        Seq::empty()
    } else if start_code(buf, i) > 0 {
        seq![(i, start_code(buf, i))] + start_codes(buf, i + start_code(buf, i))
    } else {
        start_codes(buf, i + 1)
    }
}

/// The end of the unit behind the `k`-th start code: the next start code, or
/// the end of the stream.
pub open spec fn unit_end(buf: Seq<u8>, codes: Seq<(int, int)>, k: int) -> int {
    if k + 1 < codes.len() {
        codes[k + 1].0
    } else {
        buf.len() as int
    }
}

/// Whether a unit that starts with this byte is a parameter set.
pub open spec fn is_parameter_set(header: u8) -> bool {
    header & 0x1f == 7 || header & 0x1f == 8
}

/// The parameter sets behind the first `n` start codes, each with a start code
/// of four bytes in front.
pub open spec fn parameter_sets(buf: Seq<u8>, codes: Seq<(int, int)>, n: int) -> Seq<u8>
    decreases n,
{
    if n <= 0 {
        Seq::empty()
    } else {
        let before = parameter_sets(buf, codes, n - 1);
        let start = codes[n - 1].0 + codes[n - 1].1;
        if start < buf.len() && is_parameter_set(buf[start]) {
            before + seq![0u8, 0, 0, 1] + buf.subrange(start, unit_end(buf, codes, n - 1))
        } else {
            before
        }
    }
}

/// Whether the `k`-th of the codes is one from `i` on, and ends within the
/// stream and before the next one.
spec fn code_fits(buf: Seq<u8>, codes: Seq<(int, int)>, i: int, k: int) -> bool {
    &&& i <= codes[k].0
    &&& codes[k].1 == start_code(buf, codes[k].0)
    &&& codes[k].1 > 0
    &&& codes[k].0 + codes[k].1 <= unit_end(buf, codes, k) <= buf.len()
}

/// The start codes stand in order, none reaches into the next, and all lie
/// within the stream.
proof fn lemma_codes(buf: Seq<u8>, i: int)
    requires
        0 <= i,
    ensures
        forall|k: int|
            0 <= k < start_codes(buf, i).len() ==> #[trigger] code_fits(
                buf,
                start_codes(buf, i),
                i,
                k,
            ),
    decreases buf.len() - i,
{
    let all = start_codes(buf, i);
    if i + 3 <= buf.len() {
        let n = start_code(buf, i);
        let next = if n > 0 {
            i + n
        } else {
            i + 1
        };
        let rest = start_codes(buf, next);
        lemma_codes(buf, next);
        assert forall|k: int| 0 <= k < all.len() implies #[trigger] code_fits(buf, all, i, k) by {
            if n > 0 {
                if k > 0 {
                    assert(code_fits(buf, rest, next, k - 1));
                    assert(all[k] == rest[k - 1]);
                    if k + 1 < all.len() {
                        assert(all[k + 1] == rest[k]);
                    }
                } else if all.len() > 1 {
                    assert(code_fits(buf, rest, next, 0));
                    assert(all[1] == rest[0]);
                }
            } else {
                assert(code_fits(buf, rest, next, k));
            }
        }
    }
}

/// Every place where two zero bytes and a one stand is covered by a start
/// code: one of three bytes there, or one of four that starts a byte earlier.
pub proof fn every_mark_is_a_start_code(buf: Seq<u8>, i: int, p: int)
    requires
        0 <= i <= p,
        p + 3 <= buf.len(),
        buf[p] == 0,
        buf[p + 1] == 0,
        buf[p + 2] == 1,
    ensures
        start_codes(buf, i).contains((p, 3)) || start_codes(buf, i).contains((p - 1, 4)),
    decreases p - i,
{
    let n = start_code(buf, i);
    let all = start_codes(buf, i);
    if n > 0 {
        if i + n <= p {
            every_mark_is_a_start_code(buf, i + n, p);
            let rest = start_codes(buf, i + n);
            let c = if rest.contains((p, 3)) {
                (p, 3int)
            } else {
                (p - 1, 4int)
            };
            let k = choose|k: int| 0 <= k < rest.len() && rest[k] == c;
            assert(all[k + 1] == c);
        } else {
            assert(all[0] == (i, n));
        }
    } else {
        assert(i != p);
        every_mark_is_a_start_code(buf, i + 1, p);
    }
}

/// Where start codes stand, and how long each is.
fn find_start_codes(buf: &[u8]) -> (codes: Vec<(usize, usize)>)
    ensures
        codes@.map_values(|c: (usize, usize)| (c.0 as int, c.1 as int)) == start_codes(buf@, 0),
{
    let ghost view = |c: (usize, usize)| (c.0 as int, c.1 as int);
    let mut codes: Vec<(usize, usize)> = Vec::new();
    let len: usize = buf.len();
    let mut i: usize = 0;
    assert(codes@.map_values(view) + start_codes(buf@, 0) =~= start_codes(buf@, 0));
    while i < len && len - i >= 3
        invariant
            view == (|c: (usize, usize)| (c.0 as int, c.1 as int)),
            len == buf@.len(),
            i <= len,
            codes@.map_values(view) + start_codes(buf@, i as int) == start_codes(buf@, 0),
        decreases len - i,
    {
        let ghost before = codes@;
        if buf[i] == 0 && buf[i + 1] == 0 {
            if buf[i + 2] == 1 {
                codes.push((i, 3));
                proof {
                    assert(codes@.map_values(view) =~= before.map_values(view).push(
                        (i as int, 3int),
                    ));
                    assert(codes@.map_values(view) + start_codes(buf@, i + 3)
                        =~= before.map_values(view) + start_codes(buf@, i as int));
                }
                i = i + 3;
                continue;
            }
            if len - i >= 4 && buf[i + 2] == 0 && buf[i + 3] == 1 {
                codes.push((i, 4));
                proof {
                    assert(codes@.map_values(view) =~= before.map_values(view).push(
                        (i as int, 4int),
                    ));
                    assert(codes@.map_values(view) + start_codes(buf@, i + 4)
                        =~= before.map_values(view) + start_codes(buf@, i as int));
                }
                i = i + 4;
                continue;
            }
        }
        i = i + 1;
    }
    assert(start_codes(buf@, i as int) =~= Seq::<(int, int)>::empty());
    assert(codes@.map_values(view) =~= start_codes(buf@, 0));
    codes
}

/// The parameter sets of the stream in order, each with a start code of four
/// bytes in front; empty where there are none.
pub fn extract_sps_pps(annex_b: &[u8]) -> (out: Vec<u8>)
    ensures
        out@ == parameter_sets(
            annex_b@,
            start_codes(annex_b@, 0),
            start_codes(annex_b@, 0).len() as int,
        ),
{
    let codes: Vec<(usize, usize)> = find_start_codes(annex_b);
    let ghost view = |c: (usize, usize)| (c.0 as int, c.1 as int);
    let ghost all = start_codes(annex_b@, 0);
    proof {
        lemma_codes(annex_b@, 0);
        assert(all.len() == codes@.len());
        assert forall|k: int| 0 <= k < codes@.len() implies all[k] == (
            (#[trigger] codes@[k]).0 as int,
            codes@[k].1 as int,
        ) by {
            assert(codes@.map_values(view)[k] == view(codes@[k]));
        }
    }
    let len: usize = annex_b.len();
    let mut out: Vec<u8> = Vec::new();
    let mut i: usize = 0;
    while i < codes.len()
        invariant
            len == annex_b@.len(),
            all == start_codes(annex_b@, 0),
            all.len() == codes@.len(),
            i <= codes@.len(),
            forall|k: int|
                0 <= k < codes@.len() ==> all[k] == (
                    (#[trigger] codes@[k]).0 as int,
                    codes@[k].1 as int,
                ),
            out@ == parameter_sets(annex_b@, all, i as int),
        decreases codes@.len() - i,
    {
        proof {
            lemma_codes(annex_b@, 0);
            assert(code_fits(annex_b@, all, 0, i as int));
            if i + 1 < codes@.len() {
                assert(code_fits(annex_b@, all, 0, i + 1));
            }
        }
        let start: usize = codes[i].0 + codes[i].1;
        if start < len {
            let ty: u8 = annex_b[start] & 0x1f;
            if ty == 7 || ty == 8 {
                let end: usize = if i + 1 < codes.len() {
                    codes[i + 1].0
                } else {
                    len
                };
                let ghost before = out@;
                out.push(0u8);
                out.push(0u8);
                out.push(0u8);
                out.push(1u8);
                push_range(&mut out, annex_b, start, end);
                assert(out@ =~= before + seq![0u8, 0, 0, 1] + annex_b@.subrange(
                    start as int,
                    end as int,
                ));
            }
        }
        i = i + 1;
    }
    out
}

/// A stream without a parameter set gives nothing.
pub proof fn nothing_without_parameter_sets(buf: Seq<u8>, codes: Seq<(int, int)>, n: int)
    requires
        n <= codes.len(),
        forall|k: int|
            0 <= k < n ==> {
                let start = (#[trigger] codes[k]).0 + codes[k].1;
                start >= buf.len() || !is_parameter_set(buf[start])
            },
    ensures
        parameter_sets(buf, codes, n) == Seq::<u8>::empty(),
    decreases n,
{
    if n > 0 {
        assert(codes[n - 1] == codes[n - 1]);
        nothing_without_parameter_sets(buf, codes, n - 1);
    }
}

/// Whether the unit behind the `k`-th start code is a parameter set.
pub open spec fn starts_set(buf: Seq<u8>, codes: Seq<(int, int)>, k: int) -> bool {
    let start = codes[k].0 + codes[k].1;
    start < buf.len() && is_parameter_set(buf[start])
}

/// Whether a unit is a parameter set within which no start code stands.
spec fn is_clean_set(unit: Seq<u8>) -> bool {
    &&& unit.len() > 0
    &&& is_parameter_set(unit[0])
    &&& forall|p: int| #[trigger] start_code(unit, p) == 0
}

/// The first `n` units, each with a start code of four bytes in front.
spec fn joined(units: Seq<Seq<u8>>, n: int) -> Seq<u8>
    decreases n,
{
    if n <= 0 {
        Seq::empty()
    } else {
        joined(units, n - 1) + seq![0u8, 0, 0, 1] + units[n - 1]
    }
}

/// The start codes in front of the units from `k` on.
spec fn joined_codes(units: Seq<Seq<u8>>, k: int) -> Seq<(int, int)>
    decreases units.len() - k,
{
    if k >= units.len() {
        Seq::empty()
    } else {
        seq![(joined(units, k).len() as int, 4int)] + joined_codes(units, k + 1)
    }
}

/// The parameter sets behind the first `n` start codes.
spec fn sets(buf: Seq<u8>, codes: Seq<(int, int)>, n: int) -> Seq<Seq<u8>>
    decreases n,
{
    if n <= 0 {
        Seq::empty()
    } else if starts_set(buf, codes, n - 1) {
        sets(buf, codes, n - 1).push(
            buf.subrange(codes[n - 1].0 + codes[n - 1].1, unit_end(buf, codes, n - 1)),
        )
    } else {
        sets(buf, codes, n - 1)
    }
}

/// Whether no start code stands between the `k`-th one and the next.
spec fn gap_is_clean(buf: Seq<u8>, codes: Seq<(int, int)>, k: int) -> bool {
    forall|p: int|
        codes[k].0 + codes[k].1 <= p < unit_end(buf, codes, k) ==> #[trigger] start_code(buf, p)
            == 0
}

proof fn lemma_gaps(buf: Seq<u8>, i: int)
    requires
        0 <= i <= buf.len(),
    ensures
        ({
            let all = start_codes(buf, i);
            let first = if all.len() > 0 {
                all[0].0
            } else {
                buf.len() as int
            };
            &&& forall|p: int| i <= p < first ==> #[trigger] start_code(buf, p) == 0
            &&& forall|k: int| 0 <= k < all.len() ==> #[trigger] gap_is_clean(buf, all, k)
        }),
    decreases buf.len() - i,
{
    let all = start_codes(buf, i);
    if i + 3 <= buf.len() {
        let n = start_code(buf, i);
        let next = if n > 0 {
            i + n
        } else {
            i + 1
        };
        let rest = start_codes(buf, next);
        lemma_gaps(buf, next);
        assert forall|k: int| 0 <= k < all.len() implies #[trigger] gap_is_clean(buf, all, k) by {
            if n > 0 {
                if k > 0 {
                    assert(gap_is_clean(buf, rest, k - 1));
                    assert(all[k] == rest[k - 1]);
                    assert(unit_end(buf, all, k) == unit_end(buf, rest, k - 1));
                } else {
                    assert(all[0] == (i, n));
                    if all.len() > 1 {
                        assert(all[1] == rest[0]);
                    }
                }
            } else {
                assert(gap_is_clean(buf, rest, k));
            }
        }
    }
}

proof fn lemma_sets(buf: Seq<u8>, n: int)
    requires
        0 <= n <= start_codes(buf, 0).len(),
    ensures
        ({
            let codes = start_codes(buf, 0);
            let units = sets(buf, codes, n);
            &&& parameter_sets(buf, codes, n) == joined(units, units.len() as int)
            &&& forall|k: int| 0 <= k < units.len() ==> is_clean_set(#[trigger] units[k])
            &&& units.len() == 0 <==> forall|k: int|
                0 <= k < n ==> !(#[trigger] starts_set(buf, codes, k))
        }),
    decreases n,
{
    if n > 0 {
        let codes = start_codes(buf, 0);
        let units = sets(buf, codes, n);
        let before = sets(buf, codes, n - 1);
        lemma_sets(buf, n - 1);
        if starts_set(buf, codes, n - 1) {
            lemma_codes(buf, 0);
            lemma_gaps(buf, 0);
            assert(code_fits(buf, codes, 0, n - 1));
            assert(gap_is_clean(buf, codes, n - 1));
            let start = codes[n - 1].0 + codes[n - 1].1;
            let end = unit_end(buf, codes, n - 1);
            let unit = buf.subrange(start, end);
            let header = buf[start];
            assert(header & 0x1f == 7 || header & 0x1f == 8 ==> header != 0) by (bit_vector);
            if n < codes.len() {
                assert(code_fits(buf, codes, 0, n));
            }
            assert(start < end);
            assert forall|p: int| #[trigger] start_code(unit, p) == 0 by {
                if 0 <= p && p + 3 <= unit.len() {
                    assert(start_code(buf, start + p) == 0);
                }
            }
            assert(is_clean_set(unit));
            lemma_joined_same(before, units, before.len() as int);
        }
    }
}

/// Joining looks at no unit behind the first `n`.
proof fn lemma_joined_same(a: Seq<Seq<u8>>, b: Seq<Seq<u8>>, n: int)
    requires
        n <= a.len(),
        n <= b.len(),
        forall|k: int| 0 <= k < n ==> a[k] == b[k],
    ensures
        joined(a, n) == joined(b, n),
    decreases n,
{
    if n > 0 {
        lemma_joined_same(a, b, n - 1);
    }
}

/// The first units stand at the start of all.
proof fn lemma_joined_take(units: Seq<Seq<u8>>, n: int, m: int)
    requires
        0 <= n <= m <= units.len(),
    ensures
        joined(units, n).len() <= joined(units, m).len(),
        joined(units, m).take(joined(units, n).len() as int) == joined(units, n),
    decreases m - n,
{
    let all = joined(units, m);
    let part = joined(units, n);
    if n < m {
        lemma_joined_take(units, n, m - 1);
        let most = joined(units, m - 1);
        assert(all.take(part.len() as int) =~= most.take(part.len() as int));
    } else {
        assert(all.take(part.len() as int) =~= part);
    }
}

/// What stands in the joined units at the `k`-th one.
proof fn lemma_joined_at(units: Seq<Seq<u8>>, k: int, p: int)
    requires
        0 <= k < units.len(),
        joined(units, k).len() <= p < joined(units, k + 1).len(),
    ensures
        p < joined(units, units.len() as int).len(),
        joined(units, units.len() as int)[p] == (seq![0u8, 0, 0, 1] + units[k])[p - joined(
            units,
            k,
        ).len()],
        joined(units, k + 1).len() == joined(units, k).len() + 4 + units[k].len(),
{
    let all = joined(units, units.len() as int);
    let more = joined(units, k + 1);
    lemma_joined_take(units, k + 1, units.len() as int);
    assert(all.take(more.len() as int)[p] == all[p]);
}

/// Where no start code stands, the search goes on.
proof fn lemma_skip(buf: Seq<u8>, i: int, j: int)
    requires
        0 <= i <= j <= buf.len(),
        forall|p: int| i <= p < j ==> #[trigger] start_code(buf, p) == 0,
    ensures
        start_codes(buf, i) == start_codes(buf, j),
    decreases j - i,
{
    if i < j {
        assert(start_code(buf, i) == 0);
        lemma_skip(buf, i + 1, j);
    }
}

/// No start code begins within a unit of the joined ones.
proof fn lemma_no_code_inside(units: Seq<Seq<u8>>, k: int, p: int)
    requires
        0 <= k < units.len(),
        forall|u: int| 0 <= u < units.len() ==> is_clean_set(#[trigger] units[u]),
        joined(units, k).len() + 4 <= p < joined(units, k + 1).len(),
    ensures
        start_code(joined(units, units.len() as int), p) == 0,
{
    let all = joined(units, units.len() as int);
    let from = joined(units, k).len() + 4;
    let to = joined(units, k + 1).len() as int;
    let unit = units[k];
    lemma_joined_take(units, k + 1, units.len() as int);
    assert forall|q: int| from <= q < to implies all[q] == unit[q - from] by {
        lemma_joined_at(units, k, q);
    }
    assert forall|q: int| to <= q < to + 3 && q < all.len() implies all[q] == 0 by {
        if k + 1 < units.len() {
            lemma_joined_take(units, k + 2, units.len() as int);
            lemma_joined_at(units, k + 1, q);
        }
    }
    assert(start_code(unit, p - from) == 0);
    lemma_joined_at(units, k, p);
}

proof fn lemma_codes_of_joined(units: Seq<Seq<u8>>, k: int)
    requires
        0 <= k <= units.len(),
        forall|u: int| 0 <= u < units.len() ==> is_clean_set(#[trigger] units[u]),
    ensures
        start_codes(joined(units, units.len() as int), joined(units, k).len() as int)
            == joined_codes(units, k),
    decreases units.len() - k,
{
    let all = joined(units, units.len() as int);
    let at = joined(units, k).len() as int;
    lemma_joined_take(units, k, units.len() as int);
    if k < units.len() {
        let next = joined(units, k + 1).len() as int;
        lemma_joined_take(units, k + 1, units.len() as int);
        lemma_codes_of_joined(units, k + 1);
        assert(is_clean_set(units[k]));
        assert(next == at + 4 + units[k].len());
        lemma_joined_at(units, k, at);
        lemma_joined_at(units, k, at + 1);
        lemma_joined_at(units, k, at + 2);
        lemma_joined_at(units, k, at + 3);
        assert(start_code(all, at) == 4);
        assert forall|p: int| at + 4 <= p < next implies #[trigger] start_code(all, p) == 0 by {
            lemma_no_code_inside(units, k, p);
        }
        lemma_skip(all, at + 4, next);
    }
}

proof fn lemma_joined_code(units: Seq<Seq<u8>>, k: int, j: int)
    requires
        0 <= k <= units.len(),
        0 <= j < units.len() - k,
    ensures
        joined_codes(units, k).len() == units.len() - k,
        joined_codes(units, k)[j] == (joined(units, k + j).len() as int, 4int),
    decreases units.len() - k,
{
    if j > 0 {
        lemma_joined_code(units, k + 1, j - 1);
    } else if k + 1 < units.len() {
        lemma_joined_code(units, k + 1, 0);
    } else {
        assert(joined_codes(units, k + 1).len() == 0);
    }
}

proof fn lemma_sets_of_joined(units: Seq<Seq<u8>>, n: int)
    requires
        0 <= n <= units.len(),
        forall|u: int| 0 <= u < units.len() ==> is_clean_set(#[trigger] units[u]),
    ensures
        parameter_sets(joined(units, units.len() as int), joined_codes(units, 0), n) == joined(
            units,
            n,
        ),
    decreases n,
{
    if n > 0 {
        let all = joined(units, units.len() as int);
        let codes = joined_codes(units, 0);
        let unit = units[n - 1];
        let start = joined(units, n - 1).len() + 4;
        let end = joined(units, n).len() as int;
        lemma_sets_of_joined(units, n - 1);
        lemma_joined_code(units, 0, n - 1);
        lemma_joined_take(units, n, units.len() as int);
        assert(is_clean_set(unit));
        if n < units.len() {
            lemma_joined_code(units, 0, n);
        }
        assert(unit_end(all, codes, n - 1) == end);
        assert forall|q: int| start <= q < end implies all[q] == unit[q - start] by {
            lemma_joined_at(units, n - 1, q);
        }
        assert(all.subrange(start as int, end) =~= unit);
    }
}

/// What was extracted is itself a stream of exactly these parameter sets:
/// extracting from it gives it back. It is empty if and only if the stream
/// holds no parameter set.
pub proof fn extracted_sets_are_extracted_again(buf: Seq<u8>)
    ensures
        ({
            let codes = start_codes(buf, 0);
            let out = parameter_sets(buf, codes, codes.len() as int);
            let again = start_codes(out, 0);
            &&& parameter_sets(out, again, again.len() as int) == out
            &&& out.len() == 0 <==> forall|k: int|
                0 <= k < codes.len() ==> !(#[trigger] starts_set(buf, codes, k))
        }),
{
    let codes = start_codes(buf, 0);
    let units = sets(buf, codes, codes.len() as int);
    let m = units.len() as int;
    lemma_sets(buf, codes.len() as int);
    lemma_codes_of_joined(units, 0);
    lemma_sets_of_joined(units, m);
    if m > 0 {
        lemma_joined_code(units, 0, 0);
    }
}

/// The low five bits of a unit's first byte tell what it is: seven and eight are
/// the parameter sets, whatever the other bits say.
pub proof fn low_bits_tell_parameter_sets(header: u8)
    ensures
        is_parameter_set(header) == (header % 32 == 7 || header % 32 == 8),
{
    assert(header & 0x1f == header % 32) by (bit_vector);
}

/// Each unit begins right behind two zero bytes and a one, and a parameter set
/// goes out whole, to the next start code or the end of the stream, behind a
/// start code of its own; any other unit leaves nothing.
pub proof fn sets_go_out_whole(buf: Seq<u8>, k: int)
    requires
        0 <= k < start_codes(buf, 0).len(),
    ensures
        ({
            let codes = start_codes(buf, 0);
            let start = codes[k].0 + codes[k].1;
            let end = if k == codes.len() - 1 {
                buf.len() as int
            } else {
                codes[k + 1].0
            };
            let so_far = parameter_sets(buf, codes, k);
            &&& 3 <= start <= end <= buf.len()
            &&& buf[start - 3] == 0 && buf[start - 2] == 0 && buf[start - 1] == 1
            &&& start < buf.len() && (buf[start] % 32 == 7 || buf[start] % 32 == 8)
                ==> parameter_sets(buf, codes, k + 1) == so_far + seq![0u8, 0, 0, 1]
                + buf.subrange(start, end)
            &&& start < buf.len() && buf[start] % 32 != 7 && buf[start] % 32 != 8
                ==> parameter_sets(buf, codes, k + 1) == so_far
        }),
{
    let codes = start_codes(buf, 0);
    lemma_codes(buf, 0);
    assert(code_fits(buf, codes, 0, k));
    let start = codes[k].0 + codes[k].1;
    if start < buf.len() {
        low_bits_tell_parameter_sets(buf[start]);
    }
}

} // verus!
