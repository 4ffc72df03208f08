//! Rendering numbers as text, and reading text character by character.

use vstd::prelude::*;

use crate::clock::TICKS_PER_SECOND;
use crate::numeral;

verus! {

/// The decimal digit `d` as a character.
pub open spec fn digit_char(d: int) -> char {
    (0x30 + d) as char
}

/// `n` in decimal, without leading zeros.
pub open spec fn decimal(n: nat) -> Seq<char>
    decreases n,
{
    if n < 10 {
        seq![digit_char(n as int)]
    } else {
        decimal(n / 10).push(digit_char((n % 10) as int))
    }
}

/// `n` spaces.
pub open spec fn spaces(n: nat) -> Seq<char> {
    Seq::new(n, |i: int| ' ')
}

/// `s` moved to the right end of a field at least `width` characters wide.
pub open spec fn right_aligned(s: Seq<char>, width: nat) -> Seq<char> {
    if s.len() < width {
        spaces((width - s.len()) as nat) + s
    } else {
        s
    }
}

/// `s` moved to the left end of a field at least `width` characters wide.
pub open spec fn left_aligned(s: Seq<char>, width: nat) -> Seq<char> {
    if s.len() < width {
        s + spaces((width - s.len()) as nat)
    } else {
        s
    }
}

/// The upper-case hexadecimal digit `d` as a character.
pub open spec fn hex_char(d: int) -> char {
    if d < 10 {
        (0x30 + d) as char
    } else {
        (0x41 + d - 10) as char
    }
}

/// A 16-bit value as `0x` and four upper-case hexadecimal digits.
pub open spec fn hex4(v: int) -> Seq<char> {
    seq![
        '0',
        'x',
        hex_char(v / 0x1000 % 16),
        hex_char(v / 0x100 % 16),
        hex_char(v / 0x10 % 16),
        hex_char(v % 16),
    ]
}

/// `num / den` rounded to the nearest integer, a tie going to the even one.
pub open spec fn nearest(num: nat, den: nat) -> nat {
    let q = num / den;
    let r = num % den;
    if 2 * r < den || (2 * r == den && q % 2 == 0) {
        q
    } else {
        q + 1
    }
}

/// `n` tenths as text with one decimal place.
pub open spec fn tenths(n: nat) -> Seq<char> {
    decimal(n / 10) + seq!['.', digit_char((n % 10) as int)]
}

/// `n` hundredths as text with two decimal places.
pub open spec fn hundredths(n: nat) -> Seq<char> {
    decimal(n / 100) + seq!['.', digit_char((n / 10 % 10) as int), digit_char((n % 10) as int)]
}

/// `parts` with `sep` between each two neighbours.
pub open spec fn joined(parts: Seq<Seq<char>>, sep: Seq<char>) -> Seq<char>
    decreases parts.len(),
{
    if parts.len() == 0 {
        seq![]
    } else if parts.len() == 1 {
        parts[0]
    } else {
        joined(parts.drop_last(), sep) + sep + parts.last()
    }
}

/// The texts a vector of strings holds.
pub open spec fn texts(v: Seq<String>) -> Seq<Seq<char>> {
    v.map_values(|s: String| s@)
}

/// The text of an optional string.
pub open spec fn opt(s: Option<String>) -> Option<Seq<char>> {
    match s {
        Some(s) => Some(s@),
        None => None,
    }
}

/// Append the decimal digit `d`.
pub fn push_digit(out: &mut String, d: u8)
    requires
        d < 10,
    ensures
        final(out)@ == old(out)@.push(digit_char(d as int)),
{
    proof {
        reveal_strlit("0123456789");
    }
    let digits = "0123456789";
    assert(digits@ =~= Seq::new(10, |i: int| digit_char(i)));
    out.append(digits.substring_char(d as usize, d as usize + 1));
}

/// Append `n` in decimal.
pub fn push_decimal(out: &mut String, n: u64)
    ensures
        final(out)@ == old(out)@ + decimal(n as nat),
{
    push_long_decimal(out, n as u128);
}

/// Append `n` in decimal, whatever its size.
pub fn push_long_decimal(out: &mut String, n: u128)
    ensures
        final(out)@ == old(out)@ + decimal(n as nat),
    decreases n,
{
    if n >= 10 {
        push_long_decimal(out, n / 10);
    }
    push_digit(out, (n % 10) as u8);
}

/// Append `n` spaces.
pub fn push_spaces(out: &mut String, n: usize)
    ensures
        final(out)@ == old(out)@ + spaces(n as nat),
{
    let mut i: usize = 0;
    while i < n
        invariant
            i <= n,
            out@ == old(out)@ + spaces(i as nat),
        decreases n - i,
    {
        proof {
            reveal_strlit(" ");
        }
        out.append(" ");
        i = i + 1;
    }
}

/// Append `s` at the right end of a field `width` characters wide.
pub fn push_right_aligned(out: &mut String, s: &str, width: usize)
    ensures
        final(out)@ == old(out)@ + right_aligned(s@, width as nat),
{
    let len: usize = s.unicode_len();
    if len < width {
        push_spaces(out, width - len);
    }
    out.append(s);
}

/// Append `s` at the left end of a field `width` characters wide.
pub fn push_left_aligned(out: &mut String, s: &str, width: usize)
    ensures
        final(out)@ == old(out)@ + left_aligned(s@, width as nat),
{
    let len: usize = s.unicode_len();
    out.append(s);
    if len < width {
        push_spaces(out, width - len);
    }
}

/// `n` in decimal.
pub fn decimal_text(n: u64) -> (s: String)
    ensures
        s@ == decimal(n as nat),
{
    let mut s = String::new();
    push_decimal(&mut s, n);
    s
}

/// Append `n` in decimal at the right end of a field `width` characters wide.
pub fn push_decimal_right_aligned(out: &mut String, n: u64, width: usize)
    ensures
        final(out)@ == old(out)@ + right_aligned(decimal(n as nat), width as nat),
{
    let digits = decimal_text(n);
    push_right_aligned(out, digits.as_str(), width);
}

fn push_hex_digit(out: &mut String, d: u16)
    requires
        d < 16,
    ensures
        final(out)@ == old(out)@.push(hex_char(d as int)),
{
    proof {
        reveal_strlit("0123456789ABCDEF");
    }
    let digits = "0123456789ABCDEF";
    assert(digits@ =~= Seq::new(16, |i: int| hex_char(i)));
    out.append(digits.substring_char(d as usize, d as usize + 1));
}

/// Append `0x` and the four upper-case hexadecimal digits of `v`.
pub fn push_hex4(out: &mut String, v: u16)
    ensures
        final(out)@ == old(out)@ + hex4(v as int),
{
    proof {
        reveal_strlit("0x");
    }
    out.append("0x");
    push_hex_digit(out, v / 0x1000);
    push_hex_digit(out, v / 0x100 % 16);
    push_hex_digit(out, v / 0x10 % 16);
    push_hex_digit(out, v % 16);
}

/// `num / den` to the nearest integer, a tie going to the even one.
pub fn round_to_nearest(num: u128, den: u128) -> (q: u128)
    requires
        0 < den,
    ensures
        q == nearest(num as nat, den as nat),
{
    let q: u128 = num / den;
    let r: u128 = num % den;
    if r < den - r || (r == den - r && q % 2 == 0) {
        q
    } else {
        assert(q < u128::MAX) by (nonlinear_arith)
            requires
                q == num / den,
                r == num % den,
                den >= 1,
                den <= 1 ==> r < 1,
                2 * r >= den,
        {
        };
        q + 1
    }
}

/// Append `n` tenths with one decimal place.
pub fn push_tenths(out: &mut String, n: u128)
    ensures
        final(out)@ == old(out)@ + tenths(n as nat),
{
    proof {
        reveal_strlit(".");
    }
    push_long_decimal(out, n / 10);
    out.append(".");
    push_digit(out, (n % 10) as u8);
}

/// Append `n` hundredths with two decimal places.
pub fn push_hundredths(out: &mut String, n: u128)
    ensures
        final(out)@ == old(out)@ + hundredths(n as nat),
{
    proof {
        reveal_strlit(".");
    }
    push_long_decimal(out, n / 100);
    out.append(".");
    push_digit(out, (n / 10 % 10) as u8);
    push_digit(out, (n % 10) as u8);
}

/// Ticks as seconds with two decimal places, behind a sign where negative.
pub open spec fn seconds(t: int) -> Seq<char> {
    let size: nat = (if t < 0 {
        -t
    } else {
        t
    }) as nat;
    (if t < 0 {
        "-"@
    } else {
        ""@
    }) + hundredths(nearest(100 * size, TICKS_PER_SECOND as nat))
}

/// Append `t` ticks as seconds with two decimal places.
pub fn push_seconds(out: &mut String, t: i128)
    ensures
        final(out)@ == old(out)@ + seconds(t as int),
{
    let size: u128 = if t < 0 {
        (-(t + 1)) as u128 + 1
    } else {
        t as u128
    };
    if t < 0 {
        out.append("-");
    } else {
        out.append("");
    }
    let whole: u128 = size / TICKS_PER_SECOND as u128;
    let part: u128 = size % TICKS_PER_SECOND as u128;
    // Whole seconds are even in hundredths, so a tie falls as it does in the part.
    let h: u128 = round_to_nearest(100 * part, TICKS_PER_SECOND as u128);
    assert(100 * whole + h == nearest(100 * size as nat, TICKS_PER_SECOND as nat));
    push_hundredths(out, 100 * whole + h);
    assert(out@ =~= old(out)@ + seconds(t as int));
}

/// Append `parts` with `sep` between each two neighbours.
pub fn push_joined(out: &mut String, parts: &Vec<String>, sep: &str)
    ensures
        final(out)@ == old(out)@ + joined(texts(parts@), sep@),
{
    let n: usize = parts.len();
    let mut i: usize = 0;
    assert(texts(parts@).take(0) =~= Seq::<Seq<char>>::empty());
    while i < n
        invariant
            n == parts@.len(),
            i <= n,
            out@ == old(out)@ + joined(texts(parts@).take(i as int), sep@),
        decreases n - i,
    {
        let ghost upto = texts(parts@).take(i + 1);
        assert(upto.drop_last() =~= texts(parts@).take(i as int));
        assert(upto.last() == parts@[i as int]@);
        if i > 0 {
            out.append(sep);
        }
        out.append(parts[i].as_str());
        assert(out@ =~= old(out)@ + joined(upto, sep@));
        i = i + 1;
    }
    assert(texts(parts@).take(n as int) =~= texts(parts@));
}

/// The characters of `s`, one by one.
pub fn chars_of(s: &str) -> (v: Vec<char>)
    ensures
        v@ == s@,
{
    let mut v: Vec<char> = Vec::new();
    for c in it: s.chars()
        invariant
            v@ == it.seq().take(it.index() as int),
            it.seq() == s@,
    {
        v.push(c);
    }
    assert(v@ =~= s@);
    v
}

/// Whether two texts are the same.
pub fn same_text(a: &str, b: &str) -> (same: bool)
    ensures
        same == (a@ == b@),
{
    let x = chars_of(a);
    let y = chars_of(b);
    same_chars(&x, &y)
}

/// Whether two character sequences are the same.
pub fn same_chars(x: &Vec<char>, y: &Vec<char>) -> (same: bool)
    ensures
        same == (x@ == y@),
{
    if x.len() != y.len() {
        return false;
    }
    let mut i: usize = 0;
    while i < x.len()
        invariant
            i <= x@.len() == y@.len(),
            forall|j: int| 0 <= j < i ==> x@[j] == y@[j],
        decreases x@.len() - i,
    {
        if x[i] != y[i] {
            return false;
        }
        i = i + 1;
    }
    assert(x@ =~= y@);
    true
}

/// `s` begins with `p`.
pub open spec fn begins(s: Seq<char>, p: Seq<char>) -> bool {
    p.len() <= s.len() && s.take(p.len() as int) == p
}

/// `s` ends with `p`.
pub open spec fn ends(s: Seq<char>, p: Seq<char>) -> bool {
    p.len() <= s.len() && s.skip(s.len() - p.len()) == p
}

/// Whether `s[at..]` begins with `p`.
fn found_at(s: &Vec<char>, at: usize, p: &Vec<char>) -> (yes: bool)
    requires
        at + p@.len() <= s@.len(),
    ensures
        yes == (s@.subrange(at as int, at + p@.len()) == p@),
{
    let end: usize = s.len();
    let mut i: usize = 0;
    while i < p.len()
        invariant
            i <= p@.len(),
            at + p@.len() <= s@.len() == end,
            forall|j: int| 0 <= j < i ==> s@[at + j] == p@[j],
        decreases p@.len() - i,
    {
        if s[at + i] != p[i] {
            assert(s@.subrange(at as int, at + p@.len())[i as int] != p@[i as int]);
            return false;
        }
        i = i + 1;
    }
    assert(s@.subrange(at as int, at + p@.len()) =~= p@);
    true
}

/// Whether `s` begins with `p`.
pub fn begins_with(s: &str, p: &str) -> (yes: bool)
    ensures
        yes == begins(s@, p@),
{
    let x = chars_of(s);
    let y = chars_of(p);
    if y.len() > x.len() {
        return false;
    }
    assert(x@.subrange(0, y@.len() as int) =~= s@.take(p@.len() as int));
    found_at(&x, 0, &y)
}

/// Whether `s` ends with `p`.
pub fn ends_with(s: &str, p: &str) -> (yes: bool)
    ensures
        yes == ends(s@, p@),
{
    let x = chars_of(s);
    let y = chars_of(p);
    if y.len() > x.len() {
        return false;
    }
    let at: usize = x.len() - y.len();
    assert(x@.subrange(at as int, at + y@.len()) =~= s@.skip(s@.len() - p@.len()));
    found_at(&x, at, &y)
}

/// A field is as wide as it was asked to be, or as wide as its text where that is wider.
/// The text stands at its end, unchanged, and the rest is blank.
pub proof fn alignment_only_adds_blanks(s: Seq<char>, width: nat, i: int)
    ensures
        ({
            let (r, l) = (right_aligned(s, width), left_aligned(s, width));
            let wide = if s.len() < width {
                width
            } else {
                s.len()
            };
            &&& r.len() == wide
            &&& l.len() == wide
            &&& r.skip(wide - s.len()) == s
            &&& l.take(s.len() as int) == s
            &&& 0 <= i < wide - s.len() ==> r[i] == ' ' && l[s.len() + i] == ' '
        }),
{
    let wide = if s.len() < width {
        width
    } else {
        s.len()
    };
    assert(right_aligned(s, width).skip(wide - s.len()) =~= s);
    assert(left_aligned(s, width).take(s.len() as int) =~= s);
}

/// A rounded quotient is the closest integer, and of two equally close the even one.
pub proof fn rounding_goes_to_the_closest(num: nat, den: nat)
    requires
        den > 0,
    ensures
        ({
            let off = nearest(num, den) * den - num;
            &&& -(den as int) <= 2 * off <= den
            &&& 2 * off == den || 2 * off == -(den as int) ==> nearest(num, den) % 2 == 0
        }),
{
    let q = num / den;
    let r = num % den;
    assert(num == q * den + r && r < den) by (nonlinear_arith)
        requires
            den > 0,
            q == num / den,
            r == num % den,
    ;
    assert((q + 1) * den == q * den + den) by (nonlinear_arith);
}

/// A fixed-point text without its point is the number of tenths, or of hundredths; the
/// point stands one, or two, digits before the end.
pub proof fn a_point_divides_the_digits(n: nat)
    ensures
        ({
            let (t, h) = (tenths(n), hundredths(n));
            &&& t.len() >= 3 && t[t.len() - 2] == '.'
            &&& h.len() >= 4 && h[h.len() - 3] == '.'
            &&& numeral::digits_value(t.remove(t.len() - 2), 10) == Some(n as int)
            &&& numeral::digits_value(h.remove(h.len() - 3), 10) == Some(n as int)
        }),
{
    numeral::a_decimal_is_read_back(n / 10, 0);
    numeral::a_decimal_is_read_back(n / 100, 0);
    let (t, h) = (tenths(n), hundredths(n));
    let one = digit_char((n % 10) as int);
    let ten = digit_char((n / 10 % 10) as int);
    assert(t.remove(t.len() - 2) =~= decimal(n / 10).push(one));
    assert(h.remove(h.len() - 3) =~= decimal(n / 100).push(ten).push(one));
    numeral::a_numeral_is_positional(decimal(n / 10), one, 10);
    numeral::a_numeral_is_positional(decimal(n / 100), ten, 10);
    numeral::a_numeral_is_positional(decimal(n / 100).push(ten), one, 10);
    assert(numeral::digit_value(one) == n % 10);
    assert(numeral::digit_value(ten) == n / 10 % 10);
}

/// Joined parts stand in order with one separator between each two, none before the
/// first and none after the last.
pub proof fn separators_stand_between(parts: Seq<Seq<char>>, last: Seq<char>, sep: Seq<char>)
    ensures
        joined(Seq::empty(), sep) == Seq::<char>::empty(),
        joined(seq![last], sep) == last,
        parts.len() > 0 ==> joined(parts.push(last), sep) == joined(parts, sep) + sep + last,
{
    assert(parts.push(last).drop_last() =~= parts);
}

/// Ticks read as seconds to the closest hundredth, with a sign only where they are
/// negative, and alike on both sides of zero.
pub proof fn seconds_read_to_the_closest_hundredth(t: int)
    requires
        t >= 0,
    ensures
        t > 0 ==> seconds(-t) == seq!['-'] + seconds(t),
        ({
            let h = nearest(100 * t as nat, 1_024_000_000);
            &&& seconds(t) == hundredths(h)
            &&& -5_120_000 <= h * 10_240_000 - t <= 5_120_000
        }),
{
    reveal_strlit("-");
    reveal_strlit("");
    assert("-"@ =~= seq!['-']);
    assert(""@ + hundredths(nearest(100 * t as nat, 1_024_000_000)) =~= hundredths(
        nearest(100 * t as nat, 1_024_000_000),
    ));
    rounding_goes_to_the_closest(100 * t as nat, 1_024_000_000);
}

/// A text begins, or ends, with another exactly when it is that one with something, or
/// nothing, behind it, or before it.
pub proof fn a_prefix_leaves_a_rest(s: Seq<char>, p: Seq<char>, rest: Seq<char>)
    ensures
        begins(p + rest, p),
        ends(rest + p, p),
        begins(s, p) ==> s == p + s.skip(p.len() as int),
        ends(s, p) ==> s == s.take(s.len() - p.len()) + p,
{
    assert((p + rest).take(p.len() as int) =~= p);
    assert((rest + p).skip(rest.len() as int) =~= p);
    if begins(s, p) {
        assert(s =~= p + s.skip(p.len() as int));
    }
    if ends(s, p) {
        assert(s =~= s.take(s.len() - p.len()) + p);
    }
}

/// The digits and capitals that spell numbers.
pub proof fn a_digit_is_spelled_by_its_character(d: int)
    requires
        0 <= d < 16,
    ensures
        d < 10 ==> digit_char(d) as u32 == '0' as u32 + d,
        d < 10 ==> hex_char(d) as u32 == '0' as u32 + d,
        d >= 10 ==> hex_char(d) as u32 == 'A' as u32 + d - 10,
{
}

/// A 16-bit value reads as `0x` and its four hexadecimal digits, the highest first.
pub proof fn a_hexadecimal_has_four_digits(v: u16)
    ensures
        ({
            let s = hex4(v as int);
            &&& s.len() == 6
            &&& s[0] == '0'
            &&& s[1] == 'x'
            &&& forall|i: int|
                2 <= i < 6 ==> '0' <= #[trigger] s[i] <= '9' || 'A' <= s[i] <= 'F'
            &&& ((numeral::digit_value(s[2]) * 16 + numeral::digit_value(s[3])) * 16
                + numeral::digit_value(s[4])) * 16 + numeral::digit_value(s[5]) == v
        }),
{
    let n = v as int;
    assert(numeral::digit_value(hex_char(n / 0x1000 % 16)) == n / 0x1000 % 16);
    assert(numeral::digit_value(hex_char(n / 0x100 % 16)) == n / 0x100 % 16);
    assert(numeral::digit_value(hex_char(n / 0x10 % 16)) == n / 0x10 % 16);
    assert(numeral::digit_value(hex_char(n % 16)) == n % 16);
}

} // verus!
