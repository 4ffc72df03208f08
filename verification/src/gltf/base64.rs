//! Octets as text, four characters to three octets.

use vstd::prelude::*;

verus! {

/// The character for a six-bit value.
pub open spec fn symbol(v: int) -> char {
    if v < 26 {
        (0x41 + v) as char
    } else if v < 52 {
        (0x61 + v - 26) as char
    } else if v < 62 {
        (0x30 + v - 52) as char
    } else if v == 62 {
        '+'
    } else {
        '/'
    }
}

/// The six-bit value of a character, 64 for padding.
pub open spec fn value(c: char) -> int {
    let u = c as int;
    if 0x41 <= u <= 0x5a {
        u - 0x41
    } else if 0x61 <= u <= 0x7a {
        u - 0x61 + 26
    } else if 0x30 <= u <= 0x39 {
        u - 0x30 + 52
    } else if c == '+' {
        62
    } else if c == '/' {
        63
    } else {
        64
    }
}

/// The octet at `i`, zero past the end.
pub open spec fn octet(data: Seq<u8>, i: int) -> int {
    if i < data.len() {
        data[i] as int
    } else {
        0
    }
}

/// The four characters for the octets from `at` on.
pub open spec fn group(data: Seq<u8>, at: int) -> Seq<char> {
    let a = octet(data, at);
    let b = octet(data, at + 1);
    let c = octet(data, at + 2);
    seq![
        symbol(a / 4),
        symbol(a % 4 * 16 + b / 16),
        if at + 1 < data.len() {
            symbol(b % 16 * 4 + c / 64)
        } else {
            '='
        },
        if at + 2 < data.len() {
            symbol(c % 64)
        } else {
            '='
        },
    ]
}

/// The text for the octets from `at` on.
pub open spec fn encoded_from(data: Seq<u8>, at: int) -> Seq<char>
    decreases (if at < data.len() { data.len() - at } else { 0 }),
{
    if at >= data.len() {
        seq![]
    } else {
        group(data, at) + encoded_from(data, at + 3)
    }
}

/// The text for `data`.
pub open spec fn encoded(data: Seq<u8>) -> Seq<char> {
    encoded_from(data, 0)
}

/// The octets a group of four characters stands for.
pub open spec fn ungrouped(g: Seq<char>) -> Seq<u8> {
    let a = value(g[0]);
    let b = value(g[1]);
    let c = value(g[2]);
    let d = value(g[3]);
    if c == 64 {
        seq![(a * 4 + b / 16) as u8]
    } else if d == 64 {
        seq![(a * 4 + b / 16) as u8, (b % 16 * 16 + c / 4) as u8]
    } else {
        seq![(a * 4 + b / 16) as u8, (b % 16 * 16 + c / 4) as u8, (c % 4 * 64 + d) as u8]
    }
}

/// The octets that a text stands for.
pub open spec fn decoded(s: Seq<char>) -> Seq<u8>
    decreases s.len(),
{
    if s.len() < 4 {
        seq![]
    } else {
        ungrouped(s.take(4)) + decoded(s.skip(4))
    }
}

fn push_symbol(out: &mut String, v: u8)
    requires
        v < 64,
    ensures
        final(out)@ == old(out)@.push(symbol(v as int)),
{
    proof {
        reveal_strlit("ABCDEFGHIJKLMNOPQRSTUVWXYZabcdefghijklmnopqrstuvwxyz0123456789+/");
    }
    let table = "ABCDEFGHIJKLMNOPQRSTUVWXYZabcdefghijklmnopqrstuvwxyz0123456789+/";
    assert(table@ =~= Seq::new(64, |i: int| symbol(i)));
    out.append(table.substring_char(v as usize, v as usize + 1));
}

/// `data` as text.
pub fn base64(data: &Vec<u8>) -> (out: String)
    ensures
        out@ == encoded(data@),
{
    let n: usize = data.len();
    let mut out = String::new();
    let mut at: usize = 0;
    proof {
        reveal_strlit("=");
    }
    assert(out@ + encoded_from(data@, 0) =~= encoded(data@));
    while at < n
        invariant
            n == data@.len(),
            at <= n,
            out@ + encoded_from(data@, at as int) == encoded(data@),
            "="@ == seq!['='],
        decreases n - at,
    {
        let ghost before = out@;
        let a: u8 = data[at];
        let b: u8 = if n - at > 1 {
            data[at + 1]
        } else {
            0
        };
        let c: u8 = if n - at > 2 {
            data[at + 2]
        } else {
            0
        };
        push_symbol(&mut out, a / 4);
        push_symbol(&mut out, a % 4 * 16 + b / 16);
        if n - at > 1 {
            push_symbol(&mut out, b % 16 * 4 + c / 64);
        } else {
            out.append("=");
        }
        if n - at > 2 {
            push_symbol(&mut out, c % 64);
        } else {
            out.append("=");
        }
        assert(out@ =~= before + group(data@, at as int));
        assert(out@ + encoded_from(data@, at + 3) =~= before + encoded_from(data@, at as int));
        if n - at > 3 {
            at = at + 3;
        } else {
            assert(encoded_from(data@, at + 3) =~= encoded_from(data@, n as int));
            at = n;
        }
    }
    assert(out@ =~= encoded(data@));
    out
}

proof fn lemma_symbol_value(v: int)
    requires
        0 <= v < 64,
    ensures
        value(symbol(v)) == v,
        symbol(v) != '=',
{
}

proof fn lemma_group(data: Seq<u8>, at: int)
    requires
        0 <= at < data.len(),
    ensures
        ungrouped(group(data, at)) == data.subrange(
            at,
            if at + 3 <= data.len() {
                at + 3
            } else {
                data.len() as int
            },
        ),
{
    let a = octet(data, at);
    let b = octet(data, at + 1);
    let c = octet(data, at + 2);
    lemma_symbol_value(a / 4);
    lemma_symbol_value(a % 4 * 16 + b / 16);
    lemma_symbol_value(b % 16 * 4 + c / 64);
    lemma_symbol_value(c % 64);
    let end = if at + 3 <= data.len() {
        at + 3
    } else {
        data.len() as int
    };
    assert(value('=') == 64);
    assert(ungrouped(group(data, at)) =~= data.subrange(at, end));
}

proof fn lemma_decodes_from(data: Seq<u8>, at: int)
    requires
        0 <= at <= data.len(),
    ensures
        decoded(encoded_from(data, at)) == data.skip(at),
    decreases data.len() - at,
{
    if at < data.len() {
        let rest = encoded_from(data, at + 3);
        let whole = encoded_from(data, at);
        assert(whole.take(4) =~= group(data, at));
        assert(whole.skip(4) =~= rest);
        lemma_group(data, at);
        if at + 3 <= data.len() {
            lemma_decodes_from(data, at + 3);
            assert(data.skip(at) =~= data.subrange(at, at + 3) + data.skip(at + 3));
        } else {
            assert(rest.len() == 0);
            assert(decoded(rest) =~= Seq::<u8>::empty());
            assert(data.skip(at) =~= data.subrange(at, data.len() as int));
        }
    } else {
        assert(data.skip(at) =~= Seq::<u8>::empty());
    }
}

/// The text stands for exactly the octets it was made from.
pub proof fn the_text_gives_the_octets_back(data: Seq<u8>)
    ensures
        decoded(encoded(data)) == data,
{
    lemma_decodes_from(data, 0);
    assert(data.skip(0) =~= data);
}

/// The text is padded to whole groups: four characters for every three octets begun.
pub proof fn the_text_comes_in_whole_groups(data: Seq<u8>)
    ensures
        encoded(data).len() == (data.len() + 2) / 3 * 4,
{
    lemma_length_from(data, 0);
}

proof fn lemma_length_from(data: Seq<u8>, at: int)
    requires
        0 <= at,
    ensures
        at <= data.len() ==> encoded_from(data, at).len() == (data.len() - at + 2) / 3 * 4,
        at > data.len() ==> encoded_from(data, at).len() == 0,
    decreases (if at < data.len() { data.len() - at } else { 0 }),
{
    if at < data.len() {
        lemma_length_from(data, at + 3);
    }
}

/// The sixty-four characters in order: capitals, small letters, digits, plus and slash.
pub proof fn the_alphabet_is_in_order(v: int)
    requires
        0 <= v < 64,
    ensures
        symbol(v) == "ABCDEFGHIJKLMNOPQRSTUVWXYZabcdefghijklmnopqrstuvwxyz0123456789+/"@[v],
        value(symbol(v)) == v,
        value('=') == 64,
{
    reveal_strlit("ABCDEFGHIJKLMNOPQRSTUVWXYZabcdefghijklmnopqrstuvwxyz0123456789+/");
    let table = "ABCDEFGHIJKLMNOPQRSTUVWXYZabcdefghijklmnopqrstuvwxyz0123456789+/"@;
    assert(table =~= Seq::new(64, |i: int| symbol(i)));
}

/// Three octets are four characters of six bits each, the highest first, whatever follows
/// them; of the last one or two octets the missing bits are zero, and each missing octet
/// is an equals sign.
pub proof fn three_octets_are_four_characters(a: u8, b: u8, c: u8, rest: Seq<u8>)
    ensures
        ({
            let s = encoded(seq![a, b, c] + rest);
            &&& s.len() >= 4
            &&& s.skip(4) == encoded(rest)
            &&& forall|i: int| 0 <= i < 4 ==> 0 <= value(#[trigger] s[i]) < 64
            &&& ((value(s[0]) * 64 + value(s[1])) * 64 + value(s[2])) * 64 + value(s[3]) == (a
                * 256 + b) * 256 + c
        }),
        ({
            let s = encoded(seq![a, b]);
            &&& s.len() == 4
            &&& (value(s[0]) * 64 + value(s[1])) * 64 + value(s[2]) == (a * 256 + b) * 4
            &&& s[3] == '='
        }),
        ({
            let s = encoded(seq![a]);
            &&& s.len() == 4
            &&& value(s[0]) * 64 + value(s[1]) == a * 16
            &&& s[2] == '=' && s[3] == '='
        }),
        encoded(Seq::empty()).len() == 0,
{
    let data = seq![a, b, c] + rest;
    assert(data[0] == a && data[1] == b && data[2] == c);
    lemma_shifted(seq![a, b, c], rest, 0);
    assert(encoded(data).skip(4) =~= encoded_from(data, 3));
    lemma_symbol_value(a as int / 4);
    lemma_symbol_value(a as int % 4 * 16 + b as int / 16);
    lemma_symbol_value(b as int % 16 * 4 + c as int / 64);
    lemma_symbol_value(c as int % 64);
    lemma_symbol_value(b as int % 16 * 4);
    lemma_symbol_value(a as int % 4 * 16);
    assert(encoded_from(seq![a, b], 3) =~= Seq::<char>::empty());
    assert(encoded_from(seq![a], 3) =~= Seq::<char>::empty());
}

/// What stands before the octets to come does not matter to them.
proof fn lemma_shifted(head: Seq<u8>, rest: Seq<u8>, at: int)
    requires
        0 <= at,
    ensures
        encoded_from(head + rest, head.len() + at) == encoded_from(rest, at),
    decreases (if at < rest.len() { rest.len() - at } else { 0 }),
{
    if at < rest.len() {
        let all = head + rest;
        assert(forall|i: int| 0 <= i < rest.len() ==> all[head.len() + i] == rest[i]);
        assert(group(all, head.len() + at) =~= group(rest, at));
        lemma_shifted(head, rest, at + 3);
    }
}

} // verus!
