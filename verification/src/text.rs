//! Character-level helpers shared by the key, template, and host-pattern
//! parsers: character classes, ASCII case folding, and decimal numbers.

use vstd::prelude::*;
use vstd::string::StrSliceExecFns;
use vstd::string::StringExecFns;

verus! {

/// True when `c` is an ASCII letter.
pub open spec fn is_letter(c: char) -> bool {
    ('a' <= c && c <= 'z') || ('A' <= c && c <= 'Z')
}

/// True when `c` is an ASCII decimal digit.
pub open spec fn is_digit(c: char) -> bool {
    '0' <= c && c <= '9'
}

/// True when `c` is a space or a tab.
pub open spec fn is_space(c: char) -> bool {
    c == ' ' || c == '\t'
}

/// ASCII lower-casing of a single character; anything outside `A`..`Z` is
/// left as it is.
pub open spec fn lower_char(c: char) -> char {
    if 'A' <= c && c <= 'Z' {
        (c as u8 + 32) as char
    } else {
        c
    }
}

/// ASCII lower-casing of a character sequence.
pub open spec fn lower_seq(s: Seq<char>) -> Seq<char> {
    s.map_values(|c: char| lower_char(c))
}

/// Executable ASCII lower-casing of one character.
pub fn lower(c: char) -> (r: char)
    ensures
        r == lower_char(c),
{
    if 'A' <= c && c <= 'Z' {
        ((c as u8) + 32) as char
    } else {
        c
    }
}

/// Copies the characters of a string slice into a vector, so that parsers
/// can index them in constant time.
pub fn to_char_vec(s: &str) -> (r: Vec<char>)
    ensures
        r@ == s@,
{
    let n = s.unicode_len();
    let mut r: Vec<char> = Vec::new();
    let mut i: usize = 0;
    while i < n
        invariant
            n == s@.len(),
            i <= n,
            r@ == s@.subrange(0, i as int),
        decreases n - i,
    {
        r.push(s.get_char(i));
        i += 1;
    }
    proof {
        assert(r@ =~= s@);
    }
    r
}

/// String equality, decided character by character.
pub fn str_eq(a: &str, b: &str) -> (r: bool)
    ensures
        r == (a@ == b@),
{
    let an = a.unicode_len();
    let bn = b.unicode_len();
    if an != bn {
        return false;
    }
    let mut i: usize = 0;
    while i < an
        invariant
            an == a@.len(),
            an == b@.len(),
            i <= an,
            forall|k: int| 0 <= k < i ==> a@[k] == b@[k],
        decreases an - i,
    {
        if a.get_char(i) != b.get_char(i) {
            return false;
        }
        i += 1;
    }
    proof {
        assert(a@ =~= b@);
    }
    true
}

/// Case-insensitive string equality under ASCII case folding.
pub fn str_eq_ci(a: &str, b: &str) -> (r: bool)
    ensures
        r == (lower_seq(a@) == lower_seq(b@)),
{
    let an = a.unicode_len();
    let bn = b.unicode_len();
    if an != bn {
        proof {
            assert(lower_seq(a@).len() == an);
            assert(lower_seq(b@).len() == bn);
        }
        return false;
    }
    let mut i: usize = 0;
    while i < an
        invariant
            an == a@.len(),
            an == b@.len(),
            i <= an,
            forall|k: int| 0 <= k < i ==> lower_char(a@[k]) == lower_char(b@[k]),
        decreases an - i,
    {
        if lower(a.get_char(i)) != lower(b.get_char(i)) {
            proof {
                assert(lower_seq(a@)[i as int] != lower_seq(b@)[i as int]);
            }
            return false;
        }
        i += 1;
    }
    proof {
        assert(lower_seq(a@) =~= lower_seq(b@));
    }
    true
}

/// True when, after ASCII case folding, `h` ends with `suf`.
pub open spec fn ci_has_suffix(h: Seq<char>, suf: Seq<char>) -> bool {
    h.len() >= suf.len() && lower_seq(h).subrange(
        h.len() - suf.len(),
        h.len() as int,
    ) == lower_seq(suf)
}

/// Case-insensitive suffix test under ASCII case folding.
pub fn str_has_suffix_ci(h: &str, suf: &str) -> (r: bool)
    ensures
        r == ci_has_suffix(h@, suf@),
{
    let hn = h.unicode_len();
    let sn = suf.unicode_len();
    if hn < sn {
        return false;
    }
    let off = hn - sn;
    let mut i: usize = 0;
    while i < sn
        invariant
            hn == h@.len(),
            sn == suf@.len(),
            off == hn - sn,
            i <= sn,
            forall|k: int| 0 <= k < i ==> lower_char(h@[off + k]) == lower_char(suf@[k]),
        decreases sn - i,
    {
        if lower(h.get_char(off + i)) != lower(suf.get_char(i)) {
            proof {
                let tail = lower_seq(h@).subrange(h@.len() - suf@.len(), h@.len() as int);
                assert(tail[i as int] == lower_char(h@[off + i]));
                assert(lower_seq(suf@)[i as int] == lower_char(suf@[i as int]));
            }
            return false;
        }
        i += 1;
    }
    proof {
        let tail = lower_seq(h@).subrange(h@.len() - suf@.len(), h@.len() as int);
        assert forall|k: int| 0 <= k < sn implies tail[k] == lower_seq(suf@)[k] by {
            assert(tail[k] == lower_char(h@[off + k]));
        }
        assert(tail =~= lower_seq(suf@));
    }
    true
}

/// The value of a decimal digit string, most significant digit first.
pub open spec fn dec_val(s: Seq<char>) -> int
    decreases s.len(),
{
    if s.len() == 0 {
        0
    } else {
        dec_val(s.drop_last()) * 10 + (s.last() as int - '0' as int)
    }
}

/// True when `s` is a non-empty run of decimal digits.
pub open spec fn all_digits(s: Seq<char>) -> bool {
    s.len() > 0 && forall|i: int| 0 <= i < s.len() ==> is_digit(s[i])
}

/// The value of a digit string never goes down as more digits are read.
proof fn lemma_dec_val_nonneg(s: Seq<char>)
    requires
        forall|i: int| 0 <= i < s.len() ==> is_digit(s[i]),
    ensures
        dec_val(s) >= 0,
    decreases s.len(),
{
    if s.len() > 0 {
        lemma_dec_val_nonneg(s.drop_last());
    }
}

/// Reads the digits `chars[from..to]` as a `u16`. Returns `None` when the
/// range is empty, holds a non-digit, or its value exceeds `u16::MAX`.
pub fn parse_u16(chars: &Vec<char>, from: usize, to: usize) -> (r: Option<u16>)
    requires
        from <= to <= chars@.len(),
    ensures
        match r {
            Some(v) => all_digits(chars@.subrange(from as int, to as int)) && v as int == dec_val(
                chars@.subrange(from as int, to as int),
            ),
            None => !all_digits(chars@.subrange(from as int, to as int)) || dec_val(
                chars@.subrange(from as int, to as int),
            ) > u16::MAX,
        },
{
    if from == to {
        return None;
    }
    let ghost whole = chars@.subrange(from as int, to as int);
    let mut acc: u32 = 0;
    let mut i: usize = from;
    while i < to
        invariant
            from <= i <= to <= chars@.len(),
            whole == chars@.subrange(from as int, to as int),
            forall|k: int| from <= k < i ==> is_digit(chars@[k]),
            acc as int == dec_val(chars@.subrange(from as int, i as int)),
            acc <= 0xffff,
        decreases to - i,
    {
        let c = chars[i];
        if !('0' <= c && c <= '9') {
            proof {
                assert(!is_digit(whole[i - from]));
            }
            return None;
        }
        let d: u32 = (c as u32) - 48;
        proof {
            assert(chars@.subrange(from as int, i + 1).drop_last() =~= chars@.subrange(
                from as int,
                i as int,
            ));
            assert(chars@.subrange(from as int, i + 1).last() == chars@[i as int]);
        }
        let next: u32 = acc * 10 + d;
        if next > 0xffff {
            if all_digits_range(chars, i + 1, to) {
                proof {
                    lemma_digits_grow(chars@, from as int, i + 1, to as int);
                    assert(dec_val(whole) >= next);
                }
            } else {
                proof {
                    let k = choose|k: int| i + 1 <= k < to && !is_digit(#[trigger] chars@[k]);
                    assert(!is_digit(whole[k - from]));
                }
            }
            return None;
        }
        acc = next;
        i += 1;
    }
    proof {
        assert(whole =~= chars@.subrange(from as int, i as int));
    }
    Some(acc as u16)
}

/// Checks that `chars[from..to]` holds only decimal digits.
fn all_digits_range(chars: &Vec<char>, from: usize, to: usize) -> (r: bool)
    requires
        from <= to <= chars@.len(),
    ensures
        r == forall|k: int| from <= k < to ==> is_digit(chars@[k]),
{
    let mut i: usize = from;
    while i < to
        invariant
            from <= i <= to <= chars@.len(),
            forall|k: int| from <= k < i ==> is_digit(chars@[k]),
        decreases to - i,
    {
        let c = chars[i];
        if !('0' <= c && c <= '9') {
            return false;
        }
        i += 1;
    }
    true
}

/// Builds the message text of an invalid-input error: the offending value,
/// a space, and the reason.
pub fn describe_invalid(value: &str, reason: &str) -> (r: String)
    ensures
        r@ == value@ + " "@ + reason@,
{
    let mut out = String::from_str(value);
    out.append(" ");
    out.append(reason);
    out
}

/// The character of one decimal digit.
pub open spec fn digit_char(d: int) -> char {
    (('0' as int) + d) as char
}

/// The character of one hexadecimal digit, lower case.
pub open spec fn hex_digit_char(d: int) -> char {
    if d < 10 {
        digit_char(d)
    } else {
        (('a' as int) + d - 10) as char
    }
}

/// The decimal digits of `n`, most significant first.
pub open spec fn dec_digits(n: int) -> Seq<char>
    decreases n,
    when n >= 0
{
    if n < 10 {
        seq![digit_char(n)]
    } else {
        dec_digits(n / 10) + seq![digit_char(n % 10)]
    }
}

/// The hexadecimal digits of `n`, most significant first, lower case.
pub open spec fn hex_digits(n: int) -> Seq<char>
    decreases n,
    when n >= 0
{
    if n < 16 {
        seq![hex_digit_char(n)]
    } else {
        hex_digits(n / 16) + seq![hex_digit_char(n % 16)]
    }
}

/// Appends one decimal digit to `out`.
fn push_dec_digit(out: &mut String, d: u8)
    requires
        d < 10,
    ensures
        final(out)@ == old(out)@ + seq![digit_char(d as int)],
{
    proof {
        reveal_strlit("0");
        reveal_strlit("1");
        reveal_strlit("2");
        reveal_strlit("3");
        reveal_strlit("4");
        reveal_strlit("5");
        reveal_strlit("6");
        reveal_strlit("7");
        reveal_strlit("8");
        reveal_strlit("9");
    }
    match d {
        0 => out.append("0"),
        1 => out.append("1"),
        2 => out.append("2"),
        3 => out.append("3"),
        4 => out.append("4"),
        5 => out.append("5"),
        6 => out.append("6"),
        7 => out.append("7"),
        8 => out.append("8"),
        _ => out.append("9"),
    }
    proof {
        assert(out@ =~= old(out)@ + seq![digit_char(d as int)]);
    }
}

/// Appends one hexadecimal digit to `out`, lower case.
fn push_hex_digit(out: &mut String, d: u8)
    requires
        d < 16,
    ensures
        final(out)@ == old(out)@ + seq![hex_digit_char(d as int)],
{
    if d < 10 {
        push_dec_digit(out, d);
        return ;
    }
    proof {
        reveal_strlit("a");
        reveal_strlit("b");
        reveal_strlit("c");
        reveal_strlit("d");
        reveal_strlit("e");
        reveal_strlit("f");
    }
    match d {
        10 => out.append("a"),
        11 => out.append("b"),
        12 => out.append("c"),
        13 => out.append("d"),
        14 => out.append("e"),
        _ => out.append("f"),
    }
    proof {
        assert(out@ =~= old(out)@ + seq![hex_digit_char(d as int)]);
    }
}

/// Appends the decimal form of `n` to `out`.
pub fn fmt_dec_u8(out: &mut String, n: u8)
    ensures
        final(out)@ == old(out)@ + dec_digits(n as int),
    decreases n,
{
    if n < 10 {
        push_dec_digit(out, n);
    } else {
        let ghost mid = dec_digits(n as int / 10);
        fmt_dec_u8(out, n / 10);
        push_dec_digit(out, n % 10);
        proof {
            assert((old(out)@ + mid) + seq![digit_char(n as int % 10)] =~= old(out)@ + (mid
                + seq![digit_char(n as int % 10)]));
        }
    }
}

/// Appends the hexadecimal form of `n` to `out`, lower case.
pub fn fmt_hex_u16(out: &mut String, n: u16)
    ensures
        final(out)@ == old(out)@ + hex_digits(n as int),
    decreases n,
{
    if n < 16 {
        push_hex_digit(out, n as u8);
    } else {
        let ghost mid = hex_digits(n as int / 16);
        fmt_hex_u16(out, n / 16);
        push_hex_digit(out, (n % 16) as u8);
        proof {
            assert((old(out)@ + mid) + seq![hex_digit_char(n as int % 16)] =~= old(out)@ + (mid
                + seq![hex_digit_char(n as int % 16)]));
        }
    }
}

/// Extending a digit string multiplies its value up: the value of
/// `s[from..to]` is at least the value of any of its digit prefixes.
proof fn lemma_digits_grow(s: Seq<char>, from: int, mid: int, to: int)
    requires
        0 <= from <= mid <= to <= s.len(),
        forall|k: int| mid <= k < to ==> is_digit(s[k]),
        forall|k: int| from <= k < mid ==> is_digit(s[k]),
    ensures
        dec_val(s.subrange(from, to)) >= dec_val(s.subrange(from, mid)),
    decreases to - mid,
{
    if mid < to {
        lemma_digits_grow(s, from, mid + 1, to);
        let a = s.subrange(from, mid);
        let b = s.subrange(from, mid + 1);
        assert(b.drop_last() =~= a);
        assert(is_digit(b.last()));
        lemma_dec_val_nonneg(a);
        assert(dec_val(b) == dec_val(a) * 10 + (b.last() as int - '0' as int));
        assert(dec_val(a) * 10 >= dec_val(a)) by (nonlinear_arith)
            requires
                dec_val(a) >= 0,
        ;
    } else {
        assert(s.subrange(from, to) =~= s.subrange(from, mid));
    }
}

} // verus!
