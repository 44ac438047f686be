//! Text: strings as sequences of characters, and the small operations on them
//! that the wire formats are made of.

use vstd::prelude::*;
use vstd::string::*;

use crate::octets::bytes_eq;

verus! {

/// `String::push` of std appends one character.
pub assume_specification[ std::string::String::push ](s: &mut String, c: char)
    ensures
        final(s)@ == old(s)@.push(c),
;

/// The characters of `s` in order.
pub fn chars_of(s: &str) -> (out: Vec<char>)
    ensures
        out@ == s@,
{
    let mut out: Vec<char> = Vec::new();
    for c in it: s.chars()
        invariant
            out@ == s@.take(it.index() as int),
            it.seq() == s@,
    {
        out.push(c);
        assert(out@ =~= s@.take(it.index() + 1));
    }
    assert(out@ =~= s@);
    out
}

/// The text made of `chars[from..to]`.
pub fn text_of(chars: &[char], from: usize, to: usize) -> (out: String)
    requires
        from <= to <= chars@.len(),
    ensures
        out@ == chars@.subrange(from as int, to as int),
{
    let mut out: String = String::new();
    let mut i: usize = from;
    while i < to
        invariant
            from <= i <= to <= chars@.len(),
            out@ == chars@.subrange(from as int, i as int),
        decreases to - i,
    {
        out.push(chars[i]);
        i = i + 1;
        assert(out@ =~= chars@.subrange(from as int, i as int));
    }
    out
}

/// Whether the two texts are equal.
pub fn str_eq(a: &str, b: &str) -> (same: bool)
    ensures
        same == (a@ == b@),
{
    proof {
        vstd::utf8::encode_utf8_decode_utf8(a@);
        vstd::utf8::encode_utf8_decode_utf8(b@);
    }
    bytes_eq(a.as_bytes(), b.as_bytes())
}

/// The text `a` followed by `b`.
pub fn join2(a: &str, b: &str) -> (out: String)
    ensures
        out@ == a@ + b@,
{
    let mut out: String = a.to_owned();
    out.append(b);
    out
}

/// The text `a`, `b`, `c` in a row.
pub fn join3(a: &str, b: &str, c: &str) -> (out: String)
    ensures
        out@ == a@ + b@ + c@,
{
    let mut out: String = a.to_owned();
    out.append(b);
    out.append(c);
    out
}

/// The character of the digit `d`, in lower case above nine.
pub open spec fn digit_char(d: nat) -> char {
    if d < 10 {
        (48 + d) as char
    } else {
        (87 + d) as char
    }
}

/// The character of the digit `d`, in upper case above nine.
pub open spec fn upper_digit_char(d: nat) -> char {
    if d < 10 {
        (48 + d) as char
    } else {
        (55 + d) as char
    }
}

/// `n` in decimal digits.
pub open spec fn decimal(n: nat) -> Seq<char>
    decreases n,
{
    if n < 10 {
        seq![digit_char(n)]
    } else {
        decimal(n / 10).push(digit_char(n % 10))
    }
}

/// `n` in decimal digits, with a minus sign where it is negative.
pub open spec fn signed_decimal(n: int) -> Seq<char> {
    if n < 0 {
        seq!['-'] + decimal((-n) as nat)
    } else {
        decimal(n as nat)
    }
}

fn digit(d: u64) -> (c: char)
    requires
        d < 16,
    ensures
        c == digit_char(d as nat),
{
    if d < 10 {
        (48 + d) as u8 as char
    } else {
        (87 + d) as u8 as char
    }
}

fn upper_digit(d: u64) -> (c: char)
    requires
        d < 16,
    ensures
        c == upper_digit_char(d as nat),
{
    if d < 10 {
        (48 + d) as u8 as char
    } else {
        (55 + d) as u8 as char
    }
}

/// Appends `n` in decimal digits.
pub fn push_decimal(out: &mut String, n: u64)
    ensures
        final(out)@ == old(out)@ + decimal(n as nat),
    decreases n,
{
    if n < 10 {
        out.push(digit(n));
        assert(out@ =~= old(out)@ + decimal(n as nat));
    } else {
        push_decimal(out, n / 10);
        out.push(digit(n % 10));
        assert(out@ =~= old(out)@ + decimal(n as nat));
    }
}

/// `n` in decimal digits.
pub fn decimal_text(n: u64) -> (out: String)
    ensures
        out@ == decimal(n as nat),
{
    let mut out: String = String::new();
    push_decimal(&mut out, n);
    assert(out@ =~= decimal(n as nat));
    out
}

/// Appends `n` in decimal digits, with its sign where it is negative.
pub fn push_signed_decimal(out: &mut String, n: i64)
    ensures
        final(out)@ == old(out)@ + signed_decimal(n as int),
{
    if n < 0 {
        out.push('-');
        let magnitude: u64 = if n == i64::MIN {
            9223372036854775808u64
        } else {
            (-n) as u64
        };
        push_decimal(out, magnitude);
        assert(out@ =~= old(out)@ + signed_decimal(n as int));
    } else {
        push_decimal(out, n as u64);
    }
}

/// `bytes` as two hexadecimal digits each, in lower case.
pub open spec fn hex_lower(bytes: Seq<u8>) -> Seq<char>
    decreases bytes.len(),
{
    if bytes.len() == 0 {
        Seq::empty()
    } else {
        let b = bytes.last() as nat;
        hex_lower(bytes.drop_last()).push(digit_char(b / 16)).push(digit_char(b % 16))
    }
}

/// `bytes` as two hexadecimal digits each, in lower case.
pub fn hex_text(bytes: &[u8]) -> (out: String)
    ensures
        out@ == hex_lower(bytes@),
{
    let mut out: String = String::new();
    let mut i: usize = 0;
    while i < bytes.len()
        invariant
            i <= bytes@.len(),
            out@ == hex_lower(bytes@.take(i as int)),
        decreases bytes@.len() - i,
    {
        let b: u8 = bytes[i];
        out.push(digit((b / 16) as u64));
        out.push(digit((b % 16) as u64));
        assert(bytes@.take(i + 1).drop_last() =~= bytes@.take(i as int));
        i = i + 1;
    }
    assert(bytes@.take(bytes@.len() as int) =~= bytes@);
    out
}

/// Whether two texts are equal but for the case of ASCII letters.
pub fn same_ignoring_case(a: &str, b: &str) -> (same: bool)
    ensures
        same == (lowered(a@) == lowered(b@)),
{
    let x: String = ascii_lowered(a);
    let y: String = ascii_lowered(b);
    str_eq(x.as_str(), y.as_str())
}

/// One byte as two hexadecimal digits in upper case.
pub open spec fn hex_upper_byte(b: u8) -> Seq<char> {
    seq![upper_digit_char(b as nat / 16), upper_digit_char(b as nat % 16)]
}

/// Appends one byte as two hexadecimal digits in upper case.
pub fn push_hex_upper_byte(out: &mut String, b: u8)
    ensures
        final(out)@ == old(out)@ + hex_upper_byte(b),
{
    out.push(upper_digit((b / 16) as u64));
    out.push(upper_digit((b % 16) as u64));
    assert(out@ =~= old(out)@ + hex_upper_byte(b));
}

/// `n` as `width` hexadecimal digits in lower case, high digits cut off.
pub open spec fn hex_fixed(n: nat, width: nat) -> Seq<char>
    decreases width,
{
    if width == 0 {
        Seq::empty()
    } else {
        hex_fixed(n / 16, (width - 1) as nat).push(digit_char(n % 16))
    }
}

/// Appends `n` as `width` hexadecimal digits in lower case.
pub fn push_hex_fixed(out: &mut String, n: u64, width: usize)
    ensures
        final(out)@ == old(out)@ + hex_fixed(n as nat, width as nat),
    decreases width,
{
    if width == 0 {
        assert(out@ =~= old(out)@ + hex_fixed(n as nat, 0));
    } else {
        push_hex_fixed(out, n / 16, width - 1);
        out.push(digit(n % 16));
        assert(out@ =~= old(out)@ + hex_fixed(n as nat, width as nat));
    }
}

/// The bytes as a bracketed list of decimal numbers.
pub open spec fn byte_list(bytes: Seq<u8>) -> Seq<char> {
    seq!['['] + byte_list_items(bytes) + seq![']']
}

/// The numbers of a byte list, a comma and a space between them.
pub open spec fn byte_list_items(bytes: Seq<u8>) -> Seq<char>
    decreases bytes.len(),
{
    if bytes.len() == 0 {
        Seq::empty()
    } else if bytes.len() == 1 {
        decimal(bytes[0] as nat)
    } else {
        byte_list_items(bytes.drop_last()) + seq![',', ' '] + decimal(bytes.last() as nat)
    }
}

/// The bytes as a bracketed list of decimal numbers.
pub fn byte_list_text(bytes: &[u8]) -> (out: String)
    ensures
        out@ == byte_list(bytes@),
{
    let mut out: String = String::new();
    out.push('[');
    let mut i: usize = 0;
    while i < bytes.len()
        invariant
            i <= bytes@.len(),
            out@ == seq!['['] + byte_list_items(bytes@.take(i as int)),
        decreases bytes@.len() - i,
    {
        if i > 0 {
            out.push(',');
            out.push(' ');
        }
        push_decimal(&mut out, bytes[i] as u64);
        proof {
            let next = bytes@.take(i + 1);
            assert(next.drop_last() =~= bytes@.take(i as int));
            assert(next.last() == bytes@[i as int]);
            assert(out@ =~= seq!['['] + byte_list_items(next));
        }
        i = i + 1;
    }
    assert(bytes@.take(bytes@.len() as int) =~= bytes@);
    out.push(']');
    assert(out@ =~= byte_list(bytes@));
    out
}

/// The value of a digit of the radix, if `c` is one.
pub open spec fn digit_value(c: char, radix: nat) -> Option<nat> {
    let v = if '0' <= c && c <= '9' {
        Some((c as nat - 48) as nat)
    } else if 'a' <= c && c <= 'z' {
        Some((c as nat - 87) as nat)
    } else if 'A' <= c && c <= 'Z' {
        Some((c as nat - 55) as nat)
    } else {
        None
    };
    match v {
        Some(d) => if d < radix { Some(d) } else { None },
        None => None,
    }
}

/// The value of a run of digits of the radix, if it is one; an empty run is zero.
pub open spec fn digits_value(s: Seq<char>, radix: nat) -> Option<nat>
    decreases s.len(),
{
    if s.len() == 0 {
        Some(0)
    } else {
        match (digits_value(s.drop_last(), radix), digit_value(s.last(), radix)) {
            (Some(high), Some(low)) => Some(high * radix + low),
            _ => None,
        }
    }
}

/// What an unsigned number written in the radix stands for: an optional plus
/// sign, then at least one digit, the value at most `max`.
pub open spec fn parse_unsigned(s: Seq<char>, radix: nat, max: nat) -> Option<nat> {
    let digits = if s.len() > 0 && s[0] == '+' {
        s.skip(1)
    } else {
        s
    };
    if digits.len() == 0 {
        None
    } else {
        match digits_value(digits, radix) {
            Some(v) => if v <= max { Some(v) } else { None },
            None => None,
        }
    }
}

fn digit_of(c: char, radix: u64) -> (d: Option<u64>)
    requires
        radix == 10 || radix == 16,
    ensures
        match d {
            Some(v) => digit_value(c, radix as nat) == Some(v as nat) && v < radix,
            None => digit_value(c, radix as nat) is None,
        },
{
    let v: u64 = if '0' <= c && c <= '9' {
        c as u64 - 48
    } else if 'a' <= c && c <= 'z' {
        c as u64 - 87
    } else if 'A' <= c && c <= 'Z' {
        c as u64 - 55
    } else {
        99
    };
    if v < radix {
        Some(v)
    } else {
        None
    }
}

/// The unsigned number that `s` writes in the radix, if it is one up to `max`.
pub fn parse_number(s: &str, radix: u64, max: u64) -> (value: Option<u64>)
    requires
        radix == 10 || radix == 16,
    ensures
        match value {
            Some(v) => parse_unsigned(s@, radix as nat, max as nat) == Some(v as nat),
            None => parse_unsigned(s@, radix as nat, max as nat) is None,
        },
{
    let chars: Vec<char> = chars_of(s);
    let start: usize = if chars.len() > 0 && chars[0] == '+' {
        1
    } else {
        0
    };
    let ghost digits = chars@.skip(start as int);
    assert(start == 0 ==> digits =~= s@);
    if chars.len() == start {
        return None;
    }
    let mut acc: u64 = 0;
    let mut i: usize = start;
    assert(digits.take(0) =~= Seq::<char>::empty());
    while i < chars.len()
        invariant
            radix == 10 || radix == 16,
            start <= i <= chars@.len(),
            digits == chars@.skip(start as int),
            acc <= max,
            digits_value(digits.take(i - start), radix as nat) == Some(acc as nat),
            digits.len() > 0,
            parse_unsigned(s@, radix as nat, max as nat) == (match digits_value(
                digits,
                radix as nat,
            ) {
                Some(v) => if v <= max { Some(v) } else { None::<nat> },
                None => None,
            }),
        decreases chars@.len() - i,
    {
        let ghost more = digits.take(i - start + 1);
        proof {
            assert(more.drop_last() =~= digits.take(i - start));
            assert(more.last() == chars@[i as int]);
        }
        match digit_of(chars[i], radix) {
            Some(d) => {
                if d > max || acc > (max - d) / radix {
                    proof {
                        lemma_digits_prefix(digits, i - start + 1, radix as nat);
                        assert(acc * radix + d > max) by (nonlinear_arith)
                            requires
                                d > max || acc > (max - d) / (radix as int),
                                radix > 0,
                                acc >= 0,
                        ;
                    }
                    return None;
                }
                proof {
                    assert(acc * radix + d <= max) by (nonlinear_arith)
                        requires
                            d <= max,
                            acc <= (max - d) / (radix as int),
                            radix > 0,
                            acc >= 0,
                    ;
                }
                acc = acc * radix + d;
            },
            None => {
                proof {
                    lemma_digits_prefix(digits, i - start + 1, radix as nat);
                }
                return None;
            },
        }
        i = i + 1;
    }
    assert(digits.take(digits.len() as int) =~= digits);
    Some(acc)
}

/// A run of digits whose start is no run of digits is none either, and more
/// digits never make the value smaller.
proof fn lemma_digits_prefix(s: Seq<char>, n: int, radix: nat)
    requires
        0 <= n <= s.len(),
        radix >= 1,
    ensures
        digits_value(s.take(n), radix) is None ==> digits_value(s, radix) is None,
        digits_value(s, radix) is Some ==> digits_value(s.take(n), radix) is Some && digits_value(
            s.take(n),
            radix,
        )->0 <= digits_value(s, radix)->0,
    decreases s.len() - n,
{
    if n < s.len() {
        lemma_digits_prefix(s, n + 1, radix);
        assert(s.take(n + 1).drop_last() =~= s.take(n));
        if digits_value(s, radix) is Some {
            let high = digits_value(s.take(n), radix)->0;
            assert(high <= high * radix) by (nonlinear_arith)
                requires
                    radix >= 1,
            ;
        }
    } else {
        assert(s.take(n) =~= s);
    }
}

/// The white space of Unicode.
pub open spec fn is_white(c: char) -> bool {
    let v = c as u32;
    ||| 9 <= v <= 13
    ||| v == 0x20
    ||| v == 0x85
    ||| v == 0xa0
    ||| v == 0x1680
    ||| 0x2000 <= v <= 0x200a
    ||| v == 0x2028
    ||| v == 0x2029
    ||| v == 0x202f
    ||| v == 0x205f
    ||| v == 0x3000
}

/// `s` without the white space at either end.
pub open spec fn trimmed(s: Seq<char>) -> Seq<char>
    decreases s.len(),
{
    if s.len() == 0 {
        s
    } else if is_white(s[0]) {
        trimmed(s.skip(1))
    } else if is_white(s.last()) {
        trimmed(s.drop_last())
    } else {
        s
    }
}

fn white(c: char) -> (w: bool)
    ensures
        w == is_white(c),
{
    let v: u32 = c as u32;
    (9 <= v && v <= 13) || v == 0x20 || v == 0x85 || v == 0xa0 || v == 0x1680 || (0x2000 <= v && v
        <= 0x200a) || v == 0x2028 || v == 0x2029 || v == 0x202f || v == 0x205f || v == 0x3000
}

/// `s` without the white space at either end.
pub fn trim(s: &str) -> (out: String)
    ensures
        out@ == trimmed(s@),
{
    let chars: Vec<char> = chars_of(s);
    let mut from: usize = 0;
    let mut to: usize = chars.len();
    assert(chars@.subrange(0, to as int) =~= s@);
    while from < to && white(chars[from])
        invariant
            from <= to == chars@.len(),
            trimmed(chars@.subrange(from as int, to as int)) == trimmed(s@),
        decreases to - from,
    {
        proof {
            let cur = chars@.subrange(from as int, to as int);
            assert(cur.skip(1) =~= chars@.subrange(from + 1, to as int));
        }
        from = from + 1;
    }
    while from < to && white(chars[to - 1])
        invariant
            from <= to <= chars@.len(),
            from < to ==> !is_white(chars@[from as int]),
            trimmed(chars@.subrange(from as int, to as int)) == trimmed(s@),
        decreases to - from,
    {
        proof {
            let cur = chars@.subrange(from as int, to as int);
            assert(cur.drop_last() =~= chars@.subrange(from as int, to - 1));
        }
        to = to - 1;
    }
    text_of(chars.as_slice(), from, to)
}

/// The place of the first `c` in `s` from `from` on, or the length of `s`.
pub open spec fn find_from(s: Seq<char>, c: char, from: int) -> int
    decreases s.len() - from,
{
    if from >= s.len() {
        s.len() as int
    } else if s[from] == c {
        from
    } else {
        find_from(s, c, from + 1)
    }
}

/// The pieces of `s` between the places where `c` stands.
pub open spec fn split_on(s: Seq<char>, c: char) -> Seq<Seq<char>>
    decreases s.len(),
{
    let at = find_from(s, c, 0);
    if 0 <= at < s.len() {
        seq![s.take(at)] + split_on(s.skip(at + 1), c)
    } else {
        seq![s]
    }
}

pub proof fn lemma_find_from(s: Seq<char>, c: char, from: int)
    requires
        0 <= from <= s.len(),
    ensures
        from <= find_from(s, c, from) <= s.len(),
        find_from(s, c, from) < s.len() ==> s[find_from(s, c, from)] == c,
        forall|k: int| from <= k < find_from(s, c, from) ==> s[k] != c,
    decreases s.len() - from,
{
    if from < s.len() && s[from] != c {
        lemma_find_from(s, c, from + 1);
    }
}

/// The place of the first `c` from `from` on, or the length.
pub fn find_char(chars: &[char], c: char, from: usize) -> (at: usize)
    requires
        from <= chars@.len(),
    ensures
        at == find_from(chars@, c, from as int),
        from <= at <= chars@.len(),
        at < chars@.len() ==> chars@[at as int] == c,
{
    let mut i: usize = from;
    while i < chars.len() && chars[i] != c
        invariant
            from <= i <= chars@.len(),
            find_from(chars@, c, i as int) == find_from(chars@, c, from as int),
        decreases chars@.len() - i,
    {
        i = i + 1;
    }
    i
}

/// The pieces of `s` between the places where `c` stands.
pub fn split(s: &str, c: char) -> (parts: Vec<String>)
    ensures
        parts@.map_values(|p: String| p@) == split_on(s@, c),
        parts@.len() >= 1,
{
    let chars: Vec<char> = chars_of(s);
    let mut parts: Vec<String> = Vec::new();
    let mut from: usize = 0;
    let ghost view = |p: String| p@;
    assert(chars@.skip(0) =~= s@);
    loop
        invariant_except_break
            parts@.map_values(view) + split_on(chars@.skip(from as int), c) == split_on(s@, c),
        invariant
            view == (|p: String| p@),
            from <= chars@.len(),
        ensures
            parts@.map_values(view) == split_on(s@, c),
            parts@.len() >= 1,
        decreases chars@.len() - from,
    {
        let at: usize = find_char(chars.as_slice(), c, from);
        let ghost rest = chars@.skip(from as int);
        proof {
            lemma_find_shift(chars@, c, from as int, from as int);
            assert(rest.take(at - from) =~= chars@.subrange(from as int, at as int));
        }
        let piece: String = text_of(chars.as_slice(), from, at);
        let ghost before = parts@;
        let ghost piece_text = piece@;
        parts.push(piece);
        assert(parts@.map_values(view) =~= before.map_values(view).push(piece_text));
        if at == chars.len() {
            assert(rest =~= piece_text);
            assert(parts@.map_values(view) =~= split_on(s@, c));
            break;
        }
        proof {
            assert(rest.skip(at - from + 1) =~= chars@.skip(at + 1));
            assert(parts@.map_values(view) + split_on(chars@.skip(at + 1), c)
                =~= before.map_values(view) + split_on(rest, c));
        }
        from = at + 1;
    }
    parts
}

/// Where a character stands in the rest of a text, counted from the rest's start.
proof fn lemma_find_shift(s: Seq<char>, c: char, base: int, from: int)
    requires
        0 <= base <= from <= s.len(),
    ensures
        find_from(s.skip(base), c, from - base) == find_from(s, c, from) - base,
    decreases s.len() - from,
{
    if from < s.len() && s[from] != c {
        lemma_find_shift(s, c, base, from + 1);
    }
}

/// `s` without the prefix, or `s` itself where it does not start with it.
pub open spec fn without_prefix(s: Seq<char>, prefix: Seq<char>) -> Seq<char> {
    if prefix.len() <= s.len() && s.take(prefix.len() as int) == prefix {
        s.skip(prefix.len() as int)
    } else {
        s
    }
}

/// `s` without the suffix, or `s` itself where it does not end with it.
pub open spec fn without_suffix(s: Seq<char>, suffix: Seq<char>) -> Seq<char> {
    if suffix.len() <= s.len() && s.skip(s.len() - suffix.len()) == suffix {
        s.take(s.len() - suffix.len())
    } else {
        s
    }
}

/// Whether `chars` holds `part` at `at`.
fn holds_at(chars: &[char], part: &[char], at: usize) -> (held: bool)
    requires
        at + part@.len() <= chars@.len(),
    ensures
        held == (chars@.subrange(at as int, at + part@.len()) == part@),
{
    let len: usize = chars.len();
    let mut i: usize = 0;
    while i < part.len()
        invariant
            at + part@.len() <= chars@.len() == len,
            i <= part@.len(),
            forall|k: int| 0 <= k < i ==> chars@[at + k] == part@[k],
        decreases part@.len() - i,
    {
        if chars[at + i] != part[i] {
            assert(chars@.subrange(at as int, at + part@.len())[i as int] != part@[i as int]);
            return false;
        }
        i = i + 1;
    }
    assert(chars@.subrange(at as int, at + part@.len()) =~= part@);
    true
}

/// `s` without the prefix, or a copy of `s` where it does not start with it.
pub fn strip_prefix(s: &str, prefix: &str) -> (out: String)
    ensures
        out@ == without_prefix(s@, prefix@),
{
    let chars: Vec<char> = chars_of(s);
    let head: Vec<char> = chars_of(prefix);
    let n: usize = chars.len();
    let h: usize = head.len();
    if h <= n && holds_at(chars.as_slice(), head.as_slice(), 0) {
        assert(chars@.subrange(0, h as int) =~= s@.take(h as int));
        assert(chars@.subrange(h as int, n as int) =~= s@.skip(h as int));
        text_of(chars.as_slice(), h, n)
    } else {
        assert(h <= n ==> chars@.subrange(0, h as int) =~= s@.take(h as int));
        s.to_owned()
    }
}

/// `s` without the suffix, or a copy of `s` where it does not end with it.
pub fn strip_suffix(s: &str, suffix: &str) -> (out: String)
    ensures
        out@ == without_suffix(s@, suffix@),
{
    let chars: Vec<char> = chars_of(s);
    let tail: Vec<char> = chars_of(suffix);
    let n: usize = chars.len();
    let t: usize = tail.len();
    if t <= n && holds_at(chars.as_slice(), tail.as_slice(), n - t) {
        assert(chars@.subrange(n - t, n as int) =~= s@.skip(n - t));
        assert(chars@.subrange(0, n - t) =~= s@.take(n - t));
        text_of(chars.as_slice(), 0, n - t)
    } else {
        assert(t <= n ==> chars@.subrange(n - t, n as int) =~= s@.skip(n - t));
        s.to_owned()
    }
}

/// Whether `part` stands somewhere in `s`.
pub open spec fn holds_part(s: Seq<char>, part: Seq<char>) -> bool {
    exists|i: int|
        0 <= i && i + part.len() <= s.len() && #[trigger] s.subrange(i, i + part.len()) == part
}

/// Whether `part` stands somewhere in `s`.
pub fn contains_text(s: &str, part: &str) -> (held: bool)
    ensures
        held == holds_part(s@, part@),
{
    let chars: Vec<char> = chars_of(s);
    let piece: Vec<char> = chars_of(part);
    let n: usize = chars.len();
    let p: usize = piece.len();
    if p > n {
        return false;
    }
    let mut i: usize = 0;
    while i < n - p
        invariant
            p <= n == chars@.len(),
            p == piece@.len(),
            i <= n - p,
            chars@ == s@,
            piece@ == part@,
            forall|k: int| 0 <= k < i ==> #[trigger] s@.subrange(k, k + p) != part@,
        decreases n - p - i,
    {
        if holds_at(chars.as_slice(), piece.as_slice(), i) {
            assert(s@.subrange(i as int, i + part@.len()) == part@);
            return true;
        }
        i = i + 1;
    }
    let last: bool = holds_at(chars.as_slice(), piece.as_slice(), i);
    assert(last ==> s@.subrange(i as int, i + part@.len()) == part@);
    last
}

/// `c` in lower case where it is an ASCII letter.
pub open spec fn ascii_lower(c: char) -> char {
    if 'A' <= c && c <= 'Z' {
        (c as u32 + 32) as char
    } else {
        c
    }
}

/// `s` with its ASCII letters in lower case.
pub open spec fn lowered(s: Seq<char>) -> Seq<char> {
    s.map_values(|c: char| ascii_lower(c))
}

/// `s` with its ASCII letters in lower case.
pub fn ascii_lowered(s: &str) -> (out: String)
    ensures
        out@ == lowered(s@),
{
    let chars: Vec<char> = chars_of(s);
    let mut out: String = String::new();
    let mut i: usize = 0;
    while i < chars.len()
        invariant
            chars@ == s@,
            i <= chars@.len(),
            out@ == lowered(s@.take(i as int)),
        decreases chars@.len() - i,
    {
        let c: char = chars[i];
        if 'A' <= c && c <= 'Z' {
            out.push((c as u8 + 32) as char);
        } else {
            out.push(c);
        }
        i = i + 1;
        assert(out@ =~= lowered(s@.take(i as int)));
    }
    assert(s@.take(s@.len() as int) =~= s@);
    out
}

/// A text as a programmer reads it: in quotation marks, with what cannot be
/// seen spelled out.
pub uninterp spec fn debug_spelling(s: Seq<char>) -> Seq<char>;

/// The `Debug` form of a text in std: a function of the text.
#[verifier::external_body]
pub(crate) fn debug_text(s: &str) -> (out: String)
    ensures
        out@ == debug_spelling(s@),
{
    format!("{:?}", s)
}

/// The `Debug` form of an optional text.
pub open spec fn debug_option(s: Option<Seq<char>>) -> Seq<char> {
    match s {
        Some(t) => "Some("@ + debug_spelling(t) + ")"@,
        None => "None"@,
    }
}

/// The `Debug` form of an optional text.
pub fn debug_option_text(s: &Option<String>) -> (out: String)
    ensures
        out@ == debug_option(
            match *s {
                Some(t) => Some(t@),
                None => None,
            },
        ),
{
    match s {
        Some(t) => {
            let shown: String = debug_text(t.as_str());
            join3("Some(", shown.as_str(), ")")
        },
        None => "None".to_owned(),
    }
}

/// The text that bytes spell, with a mark for each part that is not UTF-8.
pub uninterp spec fn lossy_spelling(bytes: Seq<u8>) -> Seq<char>;

/// `String::from_utf8_lossy` of std: a function of the bytes. Bytes that are
/// UTF-8 give the text that they encode.
#[verifier::external_body]
pub(crate) fn lossy_text(bytes: &[u8]) -> (out: String)
    ensures
        out@ == lossy_spelling(bytes@),
        vstd::utf8::valid_utf8(bytes@) ==> out@ == vstd::utf8::decode_utf8(bytes@),
{
    String::from_utf8_lossy(bytes).into_owned()
}

/// The bytes of `s` in UTF-8.
pub fn utf8_bytes(s: &str) -> (out: Vec<u8>)
    ensures
        out@ == vstd::utf8::encode_utf8(s@),
{
    s.as_bytes_vec()
}

/// The digits are the usual ones, in order.
pub proof fn digits_are_the_usual(d: nat)
    requires
        d < 16,
    ensures
        digit_char(d) == "0123456789abcdef"@[d as int],
        upper_digit_char(d) == "0123456789ABCDEF"@[d as int],
        digit_value(digit_char(d), 16) == Some(d),
        digit_value(upper_digit_char(d), 16) == Some(d),
        d < 10 ==> digit_value(digit_char(d), 10) == Some(d),
        d >= 10 ==> digit_value(digit_char(d), 10) is None,
{
    reveal_strlit("0123456789abcdef");
    reveal_strlit("0123456789ABCDEF");
    assert("0123456789abcdef"@.len() == 16);
    assert("0123456789ABCDEF"@.len() == 16);
}

/// A number is read back from its decimal digits, of which there is always
/// one, and of which the first is no zero where there are more.
pub proof fn decimal_is_read_back(n: nat)
    ensures
        digits_value(decimal(n), 10) == Some(n),
        decimal(n).len() >= 1,
        decimal(n)[0] != '+' && decimal(n)[0] != '-',
        n > 0 ==> decimal(n)[0] != '0',
        forall|max: nat| n <= max ==> #[trigger] parse_unsigned(decimal(n), 10, max) == Some(n),
    decreases n,
{
    digits_are_the_usual(n % 10);
    if n < 10 {
        digits_are_the_usual(n);
        assert(decimal(n).drop_last() =~= Seq::<char>::empty());
        assert(digits_value(Seq::<char>::empty(), 10) == Some(0nat));
    } else {
        decimal_is_read_back(n / 10);
        assert(decimal(n).drop_last() =~= decimal(n / 10));
        assert(decimal(n)[0] == decimal(n / 10)[0]);
    }
}

/// A signed number is read back: a minus sign stands in front of the digits of
/// a negative number and of no other.
pub proof fn signed_decimal_is_read_back(n: int)
    ensures
        n >= 0 ==> digits_value(signed_decimal(n), 10) == Some(n as nat),
        n < 0 ==> signed_decimal(n)[0] == '-' && digits_value(signed_decimal(n).skip(1), 10)
            == Some((-n) as nat),
        (signed_decimal(n)[0] == '-') == (n < 0),
{
    if n < 0 {
        decimal_is_read_back((-n) as nat);
        assert(signed_decimal(n).skip(1) =~= decimal((-n) as nat));
    } else {
        decimal_is_read_back(n as nat);
    }
}

proof fn lemma_two_digits(a: char, b: char)
    ensures
        match (digit_value(a, 16), digit_value(b, 16)) {
            (Some(x), Some(y)) => digits_value(seq![a, b], 16) == Some(x * 16 + y),
            _ => true,
        },
{
    assert(seq![a].drop_last() =~= Seq::<char>::empty());
    assert(digits_value(Seq::<char>::empty(), 16) == Some(0nat));
    assert(seq![a].last() == a);
    assert(digit_value(a, 16) matches Some(x) ==> digits_value(seq![a], 16) == Some(x));
    assert(seq![a, b].drop_last() =~= seq![a]);
    assert(seq![a, b].last() == b);
}

/// Each byte is read back from its two hexadecimal digits, which stand in the
/// order of the bytes.
pub proof fn hex_is_read_back(bytes: Seq<u8>, i: int)
    requires
        0 <= i < bytes.len(),
    ensures
        hex_lower(bytes).len() == 2 * bytes.len(),
        digits_value(hex_lower(bytes).subrange(2 * i, 2 * i + 2), 16) == Some(bytes[i] as nat),
    decreases bytes.len(),
{
    lemma_hex_len(bytes);
    let rest = bytes.drop_last();
    lemma_hex_len(rest);
    if i < rest.len() {
        hex_is_read_back(rest, i);
        assert(hex_lower(bytes).subrange(2 * i, 2 * i + 2) =~= hex_lower(rest).subrange(
            2 * i,
            2 * i + 2,
        ));
    } else {
        let b = bytes.last() as nat;
        digits_are_the_usual(b / 16);
        digits_are_the_usual(b % 16);
        lemma_two_digits(digit_char(b / 16), digit_char(b % 16));
        assert(hex_lower(bytes).subrange(2 * i, 2 * i + 2) =~= seq![
            digit_char(b / 16),
            digit_char(b % 16),
        ]);
    }
}

proof fn lemma_hex_len(bytes: Seq<u8>)
    ensures
        hex_lower(bytes).len() == 2 * bytes.len(),
    decreases bytes.len(),
{
    if bytes.len() > 0 {
        lemma_hex_len(bytes.drop_last());
    }
}

/// A byte is read back from its two digits in upper case.
pub proof fn upper_byte_is_read_back(b: u8)
    ensures
        hex_upper_byte(b).len() == 2,
        digits_value(hex_upper_byte(b), 16) == Some(b as nat),
        forall|i: int| 0 <= i < 2 ==> !('a' <= #[trigger] hex_upper_byte(b)[i]),
{
    digits_are_the_usual(b as nat / 16);
    digits_are_the_usual(b as nat % 16);
    lemma_two_digits(upper_digit_char(b as nat / 16), upper_digit_char(b as nat % 16));
}

/// 16 to the power `n`.
pub open spec fn pow16(n: nat) -> nat
    decreases n,
{
    if n == 0 {
        1
    } else {
        16 * pow16((n - 1) as nat)
    }
}

/// A number that fits the width is read back from its hexadecimal digits.
pub proof fn fixed_hex_is_read_back(n: nat, width: nat)
    requires
        n < pow16(width),
    ensures
        hex_fixed(n, width).len() == width,
        digits_value(hex_fixed(n, width), 16) == Some(n),
    decreases width,
{
    if width > 0 {
        fixed_hex_is_read_back(n / 16, (width - 1) as nat);
        digits_are_the_usual(n % 16);
        assert(hex_fixed(n, width).drop_last() =~= hex_fixed(n / 16, (width - 1) as nat));
    }
}

/// The pieces with `c` between them.
pub open spec fn joined_by(pieces: Seq<Seq<char>>, c: char) -> Seq<char>
    decreases pieces.len(),
{
    if pieces.len() == 0 {
        Seq::empty()
    } else if pieces.len() == 1 {
        pieces[0]
    } else {
        pieces[0] + seq![c] + joined_by(pieces.skip(1), c)
    }
}

/// Splitting loses nothing but the separators: the pieces hold none, and put
/// together with the separator they make the text again.
pub proof fn pieces_make_the_text(s: Seq<char>, c: char)
    ensures
        split_on(s, c).len() >= 1,
        joined_by(split_on(s, c), c) == s,
        forall|i: int| 0 <= i < split_on(s, c).len() ==> !(#[trigger] split_on(s, c)[i]).contains(c),
    decreases s.len(),
{
    lemma_find_from(s, c, 0);
    let at = find_from(s, c, 0);
    let all = split_on(s, c);
    if at < s.len() {
        let rest = s.skip(at + 1);
        pieces_make_the_text(rest, c);
        assert(all.skip(1) =~= split_on(rest, c));
        assert(s =~= s.take(at) + seq![c] + rest);
        assert forall|i: int| 0 <= i < all.len() implies !(#[trigger] all[i]).contains(c) by {
            if i > 0 {
                assert(all[i] == split_on(rest, c)[i - 1]);
            }
        }
    }
}

/// Trimming takes white space off both ends, all of it, and nothing else.
#[verifier::rlimit(60)]
#[verifier::spinoff_prover]
pub proof fn trimming_takes_white_space(s: Seq<char>)
    ensures
        exists|i: int| #[trigger] is_trimmed_at(s, i),
        trimmed(s).len() > 0 ==> !is_white(trimmed(s)[0]) && !is_white(trimmed(s).last()),
    decreases s.len(),
{
    if s.len() == 0 {
        assert(s.subrange(0, 0) =~= s);
        assert(is_trimmed_at(s, 0));
    } else if is_white(s[0]) {
        let rest = s.skip(1);
        trimming_takes_white_space(rest);
        let i = choose|i: int| #[trigger] is_trimmed_at(rest, i);
        assert(s.subrange(i + 1, i + 1 + trimmed(s).len()) =~= rest.subrange(
            i,
            i + trimmed(s).len(),
        ));
        assert forall|k: int|
            0 <= k < s.len() && !(i + 1 <= k < i + 1 + trimmed(s).len()) implies is_white(
            #[trigger] s[k],
        ) by {
            if k > 0 {
                assert(rest[k - 1] == s[k]);
            }
        }
        assert(is_trimmed_at(s, i + 1));
    } else if is_white(s.last()) {
        let rest = s.drop_last();
        trimming_takes_white_space(rest);
        let i = choose|i: int| #[trigger] is_trimmed_at(rest, i);
        assert(s.subrange(i, i + trimmed(s).len()) =~= rest.subrange(i, i + trimmed(s).len()));
        assert forall|k: int|
            0 <= k < s.len() && !(i <= k < i + trimmed(s).len()) implies is_white(
            #[trigger] s[k],
        ) by {
            if k < s.len() - 1 {
                assert(rest[k] == s[k]);
            }
        }
        assert(is_trimmed_at(s, i));
    } else {
        assert(s.subrange(0, s.len() as int) =~= s);
        assert(is_trimmed_at(s, 0));
    }
}

/// Whether the trimmed text stands at `i` with nothing but white space around it.
pub open spec fn is_trimmed_at(s: Seq<char>, i: int) -> bool {
    &&& 0 <= i && i + trimmed(s).len() <= s.len()
    &&& s.subrange(i, i + trimmed(s).len()) == trimmed(s)
    &&& forall|k: int|
        0 <= k < s.len() && !(i <= k < i + trimmed(s).len()) ==> is_white(#[trigger] s[k])
}

/// Lowering changes the capital letters of ASCII into their small ones, and no
/// other character.
pub proof fn lowering_is_for_letters(s: Seq<char>, i: int)
    requires
        0 <= i < s.len(),
    ensures
        lowered(s).len() == s.len(),
        'A' <= s[i] && s[i] <= 'Z' ==> 'a' <= lowered(s)[i] && lowered(s)[i] <= 'z' && lowered(
            s,
        )[i] as u32 - 'a' as u32 == s[i] as u32 - 'A' as u32,
        !('A' <= s[i] && s[i] <= 'Z') ==> lowered(s)[i] == s[i],
{
}

/// A prefix or suffix that is there is taken off, and only that.
pub proof fn affixes_are_taken_off(s: Seq<char>, affix: Seq<char>)
    ensures
        without_prefix(affix + s, affix) == s,
        without_suffix(s + affix, affix) == s,
        !(exists|rest: Seq<char>| s == #[trigger] (affix + rest)) ==> without_prefix(s, affix) == s,
        !(exists|rest: Seq<char>| s == #[trigger] (rest + affix)) ==> without_suffix(s, affix) == s,
{
    let n = affix.len() as int;
    assert((affix + s).take(n) =~= affix);
    assert((affix + s).skip(n) =~= s);
    assert((s + affix).skip(s.len() as int) =~= affix);
    assert((s + affix).take(s.len() as int) =~= s);
    if without_prefix(s, affix) != s {
        assert(s =~= affix + s.skip(n));
    }
    if without_suffix(s, affix) != s {
        assert(s =~= s.take(s.len() - n) + affix);
    }
}

/// Whether a text spells the bytes in hexadecimal digits, two for each.
pub open spec fn spells_bytes(text: Seq<char>, bytes: Seq<u8>) -> bool {
    &&& text.len() == 2 * bytes.len()
    &&& forall|i: int|
        0 <= i < bytes.len() ==> digits_value(#[trigger] pair_at(text, i), 16) == Some(
            bytes[i] as nat,
        )
}

/// The `i`-th pair of characters.
pub open spec fn pair_at(text: Seq<char>, i: int) -> Seq<char> {
    text.subrange(2 * i, 2 * i + 2)
}

/// The hexadecimal digits of bytes spell them.
pub proof fn hex_spells_the_bytes(bytes: Seq<u8>)
    ensures
        spells_bytes(hex_lower(bytes), bytes),
{
    lemma_hex_len(bytes);
    assert forall|i: int| 0 <= i < bytes.len() implies digits_value(
        #[trigger] pair_at(hex_lower(bytes), i),
        16,
    ) == Some(bytes[i] as nat) by {
        hex_is_read_back(bytes, i);
    }
}

/// The low hexadecimal digits of a number spell the number without what was
/// cut off.
pub proof fn fixed_hex_spells_the_rest(n: nat, width: nat)
    ensures
        hex_fixed(n, width).len() == width,
        digits_value(hex_fixed(n, width), 16) == Some(n % pow16(width)),
    decreases width,
{
    if width > 0 {
        let w = (width - 1) as nat;
        let p = pow16(w);
        lemma_pow16_positive(w);
        fixed_hex_spells_the_rest(n / 16, w);
        digits_are_the_usual(n % 16);
        assert(hex_fixed(n, width).drop_last() =~= hex_fixed(n / 16, w));
        vstd::arithmetic::div_mod::lemma_breakdown(n as int, 16, p as int);
        assert(n % (16 * p) == 16 * ((n / 16) % p) + n % 16);
    } else {
        assert(n % 1 == 0);
    }
}

proof fn lemma_pow16_positive(n: nat)
    ensures
        pow16(n) > 0,
    decreases n,
{
    if n > 0 {
        lemma_pow16_positive((n - 1) as nat);
    }
}

pub proof fn lemma_pow16_small()
    ensures
        pow16(4) == 0x1_0000,
        pow16(8) == 0x1_0000_0000,
        pow16(12) == 0x1_0000_0000_0000,
        pow16(16) == 0x1_0000_0000_0000_0000,
{
    reveal_with_fuel(pow16, 17);
}

/// The first piece of a text reaches to the first separator.
pub proof fn first_piece_ends_at_the_separator(a: Seq<char>, c: char, b: Seq<char>)
    requires
        !a.contains(c),
    ensures
        split_on(a + seq![c] + b, c) == seq![a] + split_on(b, c),
        split_on(a, c) == seq![a],
{
    let s = a + seq![c] + b;
    lemma_find_from(s, c, 0);
    lemma_find_from(a, c, 0);
    let at = find_from(s, c, 0);
    if at < a.len() {
        assert(s[at] == a[at]);
        assert(a.contains(c));
    }
    if at > a.len() {
        assert(s[a.len() as int] == c);
    }
    assert(s.take(at) =~= a);
    assert(s.skip(at + 1) =~= b);
    if find_from(a, c, 0) < a.len() {
        assert(a.contains(c));
    }
}

/// No hexadecimal digit is a sign or a mark.
pub proof fn lemma_hex_fixed_chars(n: nat, width: nat, c: char)
    requires
        c == ',' || c == ':' || c == '-' || c == '+' || c == 'x' || c == ' ',
    ensures
        !hex_fixed(n, width).contains(c),
    decreases width,
{
    if width > 0 {
        lemma_hex_fixed_chars(n / 16, (width - 1) as nat, c);
        let h = hex_fixed(n, width);
        digits_are_the_usual(n % 16);
        assert forall|i: int| 0 <= i < h.len() implies h[i] != c by {
            if i < h.len() - 1 {
                assert(h[i] == hex_fixed(n / 16, (width - 1) as nat)[i]);
            }
        }
    }
}

/// A number in decimal digits holds nothing but digits.
pub proof fn decimals_hold_only_digits(n: nat, i: int)
    requires
        0 <= i < decimal(n).len(),
    ensures
        '0' <= decimal(n)[i] <= '9',
    decreases n,
{
    if n >= 10 && i < decimal(n).len() - 1 {
        decimals_hold_only_digits(n / 10, i);
    }
}

/// White space in front of a text or behind it makes no difference to what is
/// left of it.
pub proof fn white_space_around_is_lost(c: char, s: Seq<char>)
    requires
        is_white(c),
    ensures
        trimmed(seq![c] + s) == trimmed(s),
        trimmed(s.push(c)) == trimmed(s),
    decreases s.len(),
{
    let front = seq![c] + s;
    assert(front.skip(1) =~= s);
    assert(front[0] == c);
    let behind = s.push(c);
    if s.len() == 0 {
        assert(behind.skip(1) =~= s);
        assert(behind[0] == c);
    } else if is_white(s[0]) {
        white_space_around_is_lost(c, s.skip(1));
        assert(behind.skip(1) =~= s.skip(1).push(c));
        assert(behind[0] == s[0]);
    } else {
        assert(behind[0] == s[0] && behind.last() == c);
        assert(behind.drop_last() =~= s);
    }
}

} // verus!
