//! Reading unsigned numbers from text.

use vstd::prelude::*;

use crate::text;

verus! {

/// The value of a digit in bases up to 16, either case.
pub open spec fn digit_value(c: char) -> int {
    let u = c as u32;
    if 0x30 <= u <= 0x39 {
        u - 0x30
    } else if 0x41 <= u <= 0x46 {
        u - 0x41 + 10
    } else if 0x61 <= u <= 0x66 {
        u - 0x61 + 10
    } else {
        99
    }
}

/// The number `s` spells in `base`, if every character is a digit of it.
pub open spec fn digits_value(s: Seq<char>, base: int) -> Option<int>
    decreases s.len(),
{
    if s.len() == 0 {
        Some(0)
    } else {
        match digits_value(s.drop_last(), base) {
            None => None,
            Some(high) => if digit_value(s.last()) < base {
                Some(high * base + digit_value(s.last()))
            } else {
                None
            },
        }
    }
}

/// The unsigned number up to `max` that `s` spells in `base`: digits, at least one,
/// behind an optional plus sign.
pub open spec fn numeral(s: Seq<char>, base: int, max: int) -> Option<int> {
    let digits = if s.len() > 0 && s[0] == '+' {
        s.skip(1)
    } else {
        s
    };
    match digits_value(digits, base) {
        Some(v) => if digits.len() > 0 && v <= max {
            Some(v)
        } else {
            None
        },
        None => None,
    }
}

fn digit(c: char) -> (d: u32)
    ensures
        d == digit_value(c),
{
    let u: u32 = c as u32;
    if 0x30 <= u && u <= 0x39 {
        u - 0x30
    } else if 0x41 <= u && u <= 0x46 {
        u - 0x41 + 10
    } else if 0x61 <= u && u <= 0x66 {
        u - 0x61 + 10
    } else {
        99
    }
}

/// A value spelled by a prefix never exceeds the value spelled by the whole.
proof fn lemma_value_grows(s: Seq<char>, base: int, n: int)
    requires
        0 <= n <= s.len(),
        2 <= base,
    ensures
        digits_value(s, base) is Some ==> {
            &&& digits_value(s.take(n), base) is Some
            &&& 0 <= digits_value(s.take(n), base)->0 <= digits_value(s, base)->0
        },
    decreases s.len() - n,
{
    if n == s.len() {
        assert(s.take(n) =~= s);
        lemma_value_not_negative(s, base);
    } else {
        lemma_value_grows(s, base, n + 1);
        assert(s.take(n + 1).drop_last() =~= s.take(n));
        lemma_value_not_negative(s.take(n), base);
        if digits_value(s, base) is Some {
            let high = digits_value(s.take(n), base)->0;
            assert(high <= high * base) by (nonlinear_arith)
                requires
                    0 <= high,
                    2 <= base,
            ;
        }
    }
}

proof fn lemma_value_not_negative(s: Seq<char>, base: int)
    requires
        2 <= base,
    ensures
        digits_value(s, base) is Some ==> digits_value(s, base)->0 >= 0,
    decreases s.len(),
{
    if s.len() > 0 {
        lemma_value_not_negative(s.drop_last(), base);
        if digits_value(s, base) is Some {
            let high = digits_value(s.drop_last(), base)->0;
            assert(high * base >= 0) by (nonlinear_arith)
                requires
                    0 <= high,
                    2 <= base,
            ;
        }
    }
}

/// The number up to `max` that `s[from..to]` spells in `base`.
pub fn parse_range(s: &Vec<char>, from: usize, to: usize, base: u32, max: u64) -> (res: Option<u64>)
    requires
        from <= to <= s@.len(),
        base == 10 || base == 16,
    ensures
        match numeral(s@.subrange(from as int, to as int), base as int, max as int) {
            Some(v) => 0 <= v <= max && res == Some(v as u64),
            None => res is None,
        },
{
    let ghost whole = s@.subrange(from as int, to as int);
    let start: usize = if from < to && s[from] == '+' {
        from + 1
    } else {
        from
    };
    let ghost digits = s@.subrange(start as int, to as int);
    assert(start == from + 1 ==> whole.skip(1) =~= digits);
    if start == to {
        return None;
    }
    let mut value: u64 = 0;
    let mut i: usize = start;
    assert(digits.take(0) =~= Seq::<char>::empty());
    while i < to
        invariant
            start <= i <= to <= s@.len(),
            base == 10 || base == 16,
            from <= start,
            digits == s@.subrange(start as int, to as int),
            digits == (if whole.len() > 0 && whole[0] == '+' { whole.skip(1) } else { whole }),
            whole == s@.subrange(from as int, to as int),
            value <= max,
            digits_value(digits.take(i - start), base as int) == Some(value as int),
        decreases to - i,
    {
        let ghost upto = digits.take(i + 1 - start);
        assert(upto.drop_last() =~= digits.take(i - start));
        assert(upto.last() == s@[i as int]);
        proof {
            lemma_value_grows(digits, base as int, i + 1 - start);
        }
        let d: u32 = digit(s[i]);
        if d >= base {
            return None;
        }
        assert(value * base <= 16 * value) by (nonlinear_arith)
            requires
                base <= 16,
        ;
        let grown: u128 = value as u128 * base as u128 + d as u128;
        if grown > max as u128 {
            return None;
        }
        value = grown as u64;
        i = i + 1;
    }
    assert(digits.take(to - start) =~= digits);
    Some(value)
}

/// The decimal number up to `max` that `s` spells.
pub fn parse_decimal(s: &str, max: u64) -> (res: Option<u64>)
    ensures
        match numeral(s@, 10, max as int) {
            Some(v) => 0 <= v <= max && res == Some(v as u64),
            None => res is None,
        },
{
    let c = text::chars_of(s);
    assert(c@.subrange(0, c@.len() as int) =~= s@);
    parse_range(&c, 0, c.len(), 10, max)
}

/// The digits and what each is worth, in either case; nothing else is a digit in any
/// base up to sixteen.
pub proof fn a_digit_has_its_worth(c: char)
    ensures
        '0' <= c <= '9' ==> digit_value(c) == c as u32 - '0' as u32,
        'A' <= c <= 'F' ==> digit_value(c) == 10 + (c as u32 - 'A' as u32),
        'a' <= c <= 'f' ==> digit_value(c) == 10 + (c as u32 - 'a' as u32),
        !('0' <= c <= '9') && !('A' <= c <= 'F') && !('a' <= c <= 'f') ==> digit_value(c) >= 16,
{
}

/// Each further digit makes the number so many times the base, plus the digit; what is no
/// digit of the base spoils it, wherever it stands.
pub proof fn a_numeral_is_positional(s: Seq<char>, c: char, base: int)
    requires
        2 <= base <= 16,
    ensures
        digits_value(Seq::empty(), base) == Some(0int),
        digits_value(s, base) is Some && digit_value(c) < base ==> digits_value(s.push(c), base)
            == Some(digits_value(s, base)->0 * base + digit_value(c)),
        digits_value(s, base) is None || digit_value(c) >= base ==> digits_value(
            s.push(c),
            base,
        ) is None,
{
    assert(s.push(c).drop_last() =~= s);
}

/// One plus sign may stand in front of the digits and changes nothing; without a digit
/// there is no number, and neither is there one beyond the largest allowed.
pub proof fn a_plus_sign_changes_nothing(s: Seq<char>, base: int, max: int)
    requires
        2 <= base <= 16,
    ensures
        numeral(Seq::empty(), base, max) is None,
        numeral(seq!['+'], base, max) is None,
        s.len() > 0 && s[0] != '+' ==> numeral(seq!['+'] + s, base, max) == numeral(s, base, max),
        s.len() > 0 && s[0] == '+' ==> numeral(seq!['+'] + s, base, max) is None,
        s.len() > 0 && s[0] != '+' && digits_value(s, base) is Some ==> numeral(s, base, max) == (
        if digits_value(s, base)->0 <= max {
            digits_value(s, base)
        } else {
            None
        }),
        s.len() > 0 && s[0] != '+' && digits_value(s, base) is None ==> numeral(
            s,
            base,
            max,
        ) is None,
{
    assert((seq!['+'] + s).skip(1) =~= s);
    assert(seq!['+'].skip(1) =~= Seq::<char>::empty());
    if s.len() > 0 && s[0] == '+' {
        lemma_bad_start(s, base);
    }
}

/// A character that is no digit spoils what it starts.
proof fn lemma_bad_start(s: Seq<char>, base: int)
    requires
        s.len() > 0,
        digit_value(s[0]) >= base,
    ensures
        digits_value(s, base) is None,
    decreases s.len(),
{
    if s.len() > 1 {
        lemma_bad_start(s.drop_last(), base);
    } else {
        assert(s.drop_last() =~= Seq::<char>::empty());
    }
}

/// A number written in decimal is read back, as long as it is allowed.
pub proof fn a_decimal_is_read_back(n: nat, max: int)
    ensures
        digits_value(text::decimal(n), 10) == Some(n as int),
        numeral(text::decimal(n), 10, max) == (if n <= max {
            Some(n as int)
        } else {
            None
        }),
        text::decimal(n).len() > 0,
        text::decimal(n)[0] == '0' <==> n == 0,
        '0' <= text::decimal(n)[0] <= '9',
    decreases n,
{
    let s = text::decimal(n);
    if n >= 10 {
        a_decimal_is_read_back(n / 10, max);
        assert(s.drop_last() =~= text::decimal(n / 10));
        assert(s[0] == text::decimal(n / 10)[0]);
    } else {
        assert(s.drop_last() =~= Seq::<char>::empty());
        assert(digits_value(Seq::<char>::empty(), 10) == Some(0int));
    }
    assert(s.last() == text::digit_char((n % 10) as int));
    assert(digit_value(s.last()) == n % 10);
    assert(digits_value(s.drop_last(), 10) == Some((n / 10) as int));
}

/// Every character of what spells a number is a digit.
pub proof fn lemma_all_digits(s: Seq<char>, base: int, i: int)
    requires
        digits_value(s, base) is Some,
        0 <= i < s.len(),
    ensures
        digit_value(s[i]) < base,
    decreases s.len(),
{
    if i < s.len() - 1 {
        lemma_all_digits(s.drop_last(), base, i);
    }
}

/// A number that is read is within what was allowed.
pub proof fn lemma_numeral_range(s: Seq<char>, base: int, max: int)
    requires
        2 <= base,
    ensures
        numeral(s, base, max) is Some ==> 0 <= numeral(s, base, max)->0 <= max,
{
    lemma_value_not_negative(s, base);
    lemma_value_not_negative(s.skip(1), base);
}

} // verus!
