//! The message-ID config format.

use vstd::prelude::*;

use crate::msg::ids::{ConfigError, MsgId, MsgIds};
use crate::numeral;
use crate::text;

verus! {

/// Unicode `White_Space`.
pub open spec fn is_space(c: char) -> bool {
    let u = c as u32;
    ||| 0x09 <= u <= 0x0D
    ||| u == 0x20
    ||| u == 0x85
    ||| u == 0xA0
    ||| u == 0x1680
    ||| 0x2000 <= u <= 0x200A
    ||| u == 0x2028
    ||| u == 0x2029
    ||| u == 0x202F
    ||| u == 0x205F
    ||| u == 0x3000
}

/// Index of the first `c` in `s`, or the length of `s` if there is none.
pub open spec fn first_of(s: Seq<char>, c: char) -> nat
    decreases s.len(),
{
    if s.len() == 0 || s[0] == c {
        0
    } else {
        1 + first_of(s.drop_first(), c)
    }
}

/// `s` without leading white space.
pub open spec fn without_leading(s: Seq<char>) -> Seq<char>
    decreases s.len(),
{
    if s.len() > 0 && is_space(s[0]) {
        without_leading(s.drop_first())
    } else {
        s
    }
}

/// `s` without trailing white space.
pub open spec fn without_trailing(s: Seq<char>) -> Seq<char>
    decreases s.len(),
{
    if s.len() > 0 && is_space(s.last()) {
        without_trailing(s.drop_last())
    } else {
        s
    }
}

/// `s` without white space at either end.
pub open spec fn trimmed(s: Seq<char>) -> Seq<char> {
    without_trailing(without_leading(s))
}

/// An unsigned 16-bit number in `base`.
pub open spec fn number_in(s: Seq<char>, base: int) -> Option<u16> {
    match numeral::numeral(s, base, u16::MAX as int) {
        Some(v) => Some(v as u16),
        None => None,
    }
}

/// A config value: hexadecimal behind `0x` or `0X`, decimal otherwise.
pub open spec fn value_of(s: Seq<char>) -> Option<u16> {
    if s.len() >= 2 && s[0] == '0' && (s[1] == 'x' || s[1] == 'X') {
        number_in(s.skip(2), 16)
    } else {
        number_in(s, 10)
    }
}

/// `ids` with the ID called `key` set to `v`, if there is one of that name.
pub open spec fn with_id(ids: MsgIds, key: Seq<char>, v: u16) -> Option<MsgIds> {
    if key == "to_lab_cmd"@ {
        Some(MsgIds { to_lab_cmd: MsgId(v), ..ids })
    } else if key == "to_lab_hk_tlm"@ {
        Some(MsgIds { to_lab_hk_tlm: MsgId(v), ..ids })
    } else if key == "ci_lab_cmd"@ {
        Some(MsgIds { ci_lab_cmd: MsgId(v), ..ids })
    } else if key == "ci_lab_hk_tlm"@ {
        Some(MsgIds { ci_lab_hk_tlm: MsgId(v), ..ids })
    } else if key == "sample_app_cmd"@ {
        Some(MsgIds { sample_app_cmd: MsgId(v), ..ids })
    } else if key == "sample_app_hk_tlm"@ {
        Some(MsgIds { sample_app_hk_tlm: MsgId(v), ..ids })
    } else if key == "rust_app_cmd"@ {
        Some(MsgIds { rust_app_cmd: MsgId(v), ..ids })
    } else if key == "rust_app_hk_tlm"@ {
        Some(MsgIds { rust_app_hk_tlm: MsgId(v), ..ids })
    } else if key == "rust_app_vehicle_tlm"@ {
        Some(MsgIds { rust_app_vehicle_tlm: MsgId(v), ..ids })
    } else {
        None
    }
}

/// What of a line counts: everything before a `#`, trimmed.
pub open spec fn meaning(line: Seq<char>) -> Seq<char> {
    trimmed(line.take(first_of(line, '#') as int))
}

/// `ids` after one line of config, or `None` if the line is bad.
///
/// A line that means nothing changes nothing; any other is `key = value`, split
/// at its first `=`.
pub open spec fn after_line(ids: MsgIds, line: Seq<char>) -> Option<MsgIds> {
    let m = meaning(line);
    let eq = first_of(m, '=') as int;
    if m.len() == 0 {
        Some(ids)
    } else if eq == m.len() {
        None
    } else {
        match value_of(trimmed(m.skip(eq + 1))) {
            None => None,
            Some(v) => with_id(ids, trimmed(m.take(eq)), v),
        }
    }
}

/// `ids` after the lines of `s`, the first of which is line `number`.
pub open spec fn after_lines(ids: MsgIds, s: Seq<char>, number: int) -> Result<MsgIds, ConfigError>
    decreases s.len(),
{
    let end = first_of(s, '\n') as int;
    if s.len() == 0 {
        Ok(ids)
    } else {
        match after_line(ids, s.take(end)) {
            None => Err(ConfigError { line: number as usize }),
            Some(next) => if end < s.len() {
                after_lines(next, s.skip(end + 1), number + 1)
            } else {
                Ok(next)
            },
        }
    }
}

/// What a whole config gives: the defaults with every line applied in order, or
/// the first bad line.
pub open spec fn parsed(s: Seq<char>) -> Result<MsgIds, ConfigError> {
    after_lines(MsgIds::defaults(), s, 1)
}

fn is_white_space(c: char) -> (yes: bool)
    ensures
        yes == is_space(c),
{
    let u: u32 = c as u32;
    (0x09 <= u && u <= 0x0D) || u == 0x20 || u == 0x85 || u == 0xA0 || u == 0x1680 || (0x2000 <= u
        && u <= 0x200A) || u == 0x2028 || u == 0x2029 || u == 0x202F || u == 0x205F || u == 0x3000
}

/// Index of the first `c` in `s[from..to]`, or `to`.
fn find_char(s: &Vec<char>, from: usize, to: usize, c: char) -> (at: usize)
    requires
        from <= to <= s@.len(),
    ensures
        at == from + first_of(s@.subrange(from as int, to as int), c),
        from <= at <= to,
        at < to ==> s@[at as int] == c,
{
    let mut i: usize = from;
    while i < to
        invariant
            from <= i <= to <= s@.len(),
            from + first_of(s@.subrange(from as int, to as int), c) == i + first_of(
                s@.subrange(i as int, to as int),
                c,
            ),
        decreases to - i,
    {
        if s[i] == c {
            return i;
        }
        assert(s@.subrange(i as int, to as int).drop_first() =~= s@.subrange(i + 1, to as int));
        i = i + 1;
    }
    to
}

/// The bounds of `s[from..to]` without the white space at either end.
fn trim_range(s: &Vec<char>, from: usize, to: usize) -> (r: (usize, usize))
    requires
        from <= to <= s@.len(),
    ensures
        from <= r.0 <= r.1 <= to,
        s@.subrange(r.0 as int, r.1 as int) == trimmed(s@.subrange(from as int, to as int)),
{
    let mut a: usize = from;
    let ghost whole = s@.subrange(from as int, to as int);
    while a < to && is_white_space(s[a])
        invariant
            from <= a <= to <= s@.len(),
            without_leading(whole) == without_leading(s@.subrange(a as int, to as int)),
        decreases to - a,
    {
        assert(s@.subrange(a as int, to as int).drop_first() =~= s@.subrange(a + 1, to as int));
        a = a + 1;
    }
    let ghost led = s@.subrange(a as int, to as int);
    assert(without_leading(whole) == led);
    let mut b: usize = to;
    while a < b && is_white_space(s[b - 1])
        invariant
            from <= a <= b <= to <= s@.len(),
            without_trailing(led) == without_trailing(s@.subrange(a as int, b as int)),
        decreases b - a,
    {
        assert(s@.subrange(a as int, b as int).drop_last() =~= s@.subrange(a as int, b - 1));
        b = b - 1;
    }
    (a, b)
}

/// The number `s[from..to]` spells in `base`.
fn parse_number(s: &Vec<char>, from: usize, to: usize, base: u32) -> (res: Option<u16>)
    requires
        from <= to <= s@.len(),
        base == 10 || base == 16,
    ensures
        res == number_in(s@.subrange(from as int, to as int), base as int),
{
    match numeral::parse_range(s, from, to, base, u16::MAX as u64) {
        Some(v) => Some(v as u16),
        None => None,
    }
}

/// The config value `s[from..to]` spells.
fn parse_value(s: &Vec<char>, from: usize, to: usize) -> (res: Option<u16>)
    requires
        from <= to <= s@.len(),
    ensures
        res == value_of(s@.subrange(from as int, to as int)),
{
    if to - from >= 2 && s[from] == '0' && (s[from + 1] == 'x' || s[from + 1] == 'X') {
        assert(s@.subrange(from as int, to as int).skip(2) =~= s@.subrange(from + 2, to as int));
        parse_number(s, from + 2, to, 16)
    } else {
        parse_number(s, from, to, 10)
    }
}

/// Whether `s[from..to]` is `word`.
fn is_word(s: &Vec<char>, from: usize, to: usize, word: &str) -> (yes: bool)
    requires
        from <= to <= s@.len(),
    ensures
        yes == (s@.subrange(from as int, to as int) == word@),
{
    let w = text::chars_of(word);
    if w.len() != to - from {
        return false;
    }
    let mut i: usize = 0;
    while i < w.len()
        invariant
            i <= w@.len() == to - from,
            from <= to <= s@.len(),
            w@ == word@,
            forall|j: int| 0 <= j < i ==> s@[from + j] == w@[j],
        decreases w@.len() - i,
    {
        if s[from + i] != w[i] {
            assert(s@.subrange(from as int, to as int)[i as int] != w@[i as int]);
            return false;
        }
        i = i + 1;
    }
    assert(s@.subrange(from as int, to as int) =~= word@);
    true
}

/// `ids` with the ID called `s[from..to]` set.
fn set_id(ids: MsgIds, s: &Vec<char>, from: usize, to: usize, v: u16) -> (res: Option<MsgIds>)
    requires
        from <= to <= s@.len(),
    ensures
        res == with_id(ids, s@.subrange(from as int, to as int), v),
{
    if is_word(s, from, to, "to_lab_cmd") {
        Some(MsgIds { to_lab_cmd: MsgId(v), ..ids })
    } else if is_word(s, from, to, "to_lab_hk_tlm") {
        Some(MsgIds { to_lab_hk_tlm: MsgId(v), ..ids })
    } else if is_word(s, from, to, "ci_lab_cmd") {
        Some(MsgIds { ci_lab_cmd: MsgId(v), ..ids })
    } else if is_word(s, from, to, "ci_lab_hk_tlm") {
        Some(MsgIds { ci_lab_hk_tlm: MsgId(v), ..ids })
    } else if is_word(s, from, to, "sample_app_cmd") {
        Some(MsgIds { sample_app_cmd: MsgId(v), ..ids })
    } else if is_word(s, from, to, "sample_app_hk_tlm") {
        Some(MsgIds { sample_app_hk_tlm: MsgId(v), ..ids })
    } else if is_word(s, from, to, "rust_app_cmd") {
        Some(MsgIds { rust_app_cmd: MsgId(v), ..ids })
    } else if is_word(s, from, to, "rust_app_hk_tlm") {
        Some(MsgIds { rust_app_hk_tlm: MsgId(v), ..ids })
    } else if is_word(s, from, to, "rust_app_vehicle_tlm") {
        Some(MsgIds { rust_app_vehicle_tlm: MsgId(v), ..ids })
    } else {
        None
    }
}

/// Apply the config line `s[from..to]`.
fn apply_line(ids: MsgIds, s: &Vec<char>, from: usize, to: usize) -> (res: Option<MsgIds>)
    requires
        from <= to <= s@.len(),
    ensures
        res == after_line(ids, s@.subrange(from as int, to as int)),
{
    let ghost line = s@.subrange(from as int, to as int);
    let comment: usize = find_char(s, from, to, '#');
    assert(line.take(comment - from) =~= s@.subrange(from as int, comment as int));
    let (a, b) = trim_range(s, from, comment);
    let ghost m = s@.subrange(a as int, b as int);
    assert(m == meaning(line));
    if a == b {
        return Some(ids);
    }
    let eq: usize = find_char(s, a, b, '=');
    if eq == b {
        return None;
    }
    assert(m.take(eq - a) =~= s@.subrange(a as int, eq as int));
    assert(m.skip(eq - a + 1) =~= s@.subrange(eq + 1, b as int));
    let (va, vb) = trim_range(s, eq + 1, b);
    let (ka, kb) = trim_range(s, a, eq);
    match parse_value(s, va, vb) {
        None => None,
        Some(v) => set_id(ids, s, ka, kb, v),
    }
}

/// Apply every line of a config to the defaults.
pub fn parse_text(text: &str) -> (res: Result<MsgIds, ConfigError>)
    ensures
        res == parsed(text@),
{
    let s = text::chars_of(text);
    let n: usize = s.len();
    let mut ids = MsgIds::lab_defaults();
    let mut at: usize = 0;
    let mut line: usize = 0;
    assert(s@.subrange(0, n as int) =~= s@);
    while at < n
        invariant
            n == s@.len(),
            s@ == text@,
            at <= n,
            line <= at,
            parsed(s@) == after_lines(ids, s@.subrange(at as int, n as int), line + 1),
        decreases n - at,
    {
        let ghost rest = s@.subrange(at as int, n as int);
        let end: usize = find_char(&s, at, n, '\n');
        assert(rest.take(end - at) =~= s@.subrange(at as int, end as int));
        match apply_line(ids, &s, at, end) {
            None => {
                return Err(ConfigError { line: line + 1 });
            },
            Some(next) => {
                ids = next;
            },
        }
        if end == n {
            return Ok(ids);
        }
        assert(rest.skip(end - at + 1) =~= s@.subrange(end + 1, n as int));
        at = end + 1;
        line = line + 1;
    }
    Ok(ids)
}

/// White space, character by character.
pub proof fn white_space_is_blank(c: char)
    ensures
        is_space(c) <==> c == ' ' || c == '\t' || c == '\n' || c == '\r' || c == '\u{b}' || c
            == '\u{c}' || c == '\u{85}' || c == '\u{a0}' || c == '\u{1680}' || ('\u{2000}' <= c
            <= '\u{200a}') || c == '\u{2028}' || c == '\u{2029}' || c == '\u{202f}' || c
            == '\u{205f}' || c == '\u{3000}',
{
}

/// Every character is white space.
pub open spec fn blank(s: Seq<char>) -> bool {
    forall|i: int| 0 <= i < s.len() ==> is_space(#[trigger] s[i])
}

/// Neither end is white space.
pub open spec fn tight(s: Seq<char>) -> bool {
    s.len() > 0 ==> !is_space(s[0]) && !is_space(s[s.len() - 1])
}

/// `c` does not occur.
pub open spec fn free_of(s: Seq<char>, c: char) -> bool {
    forall|i: int| 0 <= i < s.len() ==> #[trigger] s[i] != c
}

/// Trimming takes white space off both ends and nothing else.
pub proof fn trimming_leaves_what_is_between(pre: Seq<char>, core: Seq<char>, post: Seq<char>)
    requires
        blank(pre),
        tight(core),
        blank(post),
    ensures
        trimmed(pre + core + post) == core,
{
    let s = pre + core + post;
    if core.len() == 0 {
        assert forall|i: int| 0 <= i < s.len() implies is_space(#[trigger] s[i]) by {
            if i >= pre.len() {
                assert(s[i] == post[i - pre.len()]);
            } else {
                assert(s[i] == pre[i]);
            }
        }
        lemma_leading(s, Seq::empty());
        assert(s + Seq::<char>::empty() =~= s);
        assert(core =~= Seq::<char>::empty());
    } else {
        assert(s =~= pre + (core + post));
        assert((core + post)[0] == core[0]);
        lemma_leading(pre, core + post);
        lemma_trailing(core, post);
    }
}

proof fn lemma_leading(pre: Seq<char>, rest: Seq<char>)
    requires
        blank(pre),
        rest.len() > 0 ==> !is_space(rest[0]),
    ensures
        without_leading(pre + rest) == rest,
    decreases pre.len(),
{
    let s = pre + rest;
    if pre.len() > 0 {
        let more = pre.drop_first();
        assert forall|i: int| 0 <= i < more.len() implies is_space(#[trigger] more[i]) by {
            assert(more[i] == pre[i + 1]);
        }
        assert(s[0] == pre[0]);
        assert(s.drop_first() =~= more + rest);
        lemma_leading(more, rest);
    } else {
        assert(s =~= rest);
    }
}

proof fn lemma_trailing(rest: Seq<char>, post: Seq<char>)
    requires
        blank(post),
        rest.len() > 0 ==> !is_space(rest[rest.len() - 1]),
    ensures
        without_trailing(rest + post) == rest,
    decreases post.len(),
{
    let s = rest + post;
    if post.len() > 0 {
        let more = post.drop_last();
        assert forall|i: int| 0 <= i < more.len() implies is_space(#[trigger] more[i]) by {
            assert(more[i] == post[i]);
        }
        assert(s.last() == post[post.len() - 1]);
        assert(s.drop_last() =~= rest + more);
        lemma_trailing(rest, more);
    } else {
        assert(s =~= rest);
    }
}

proof fn lemma_first_of(a: Seq<char>, c: char, rest: Seq<char>)
    requires
        free_of(a, c),
        rest.len() > 0 ==> rest[0] == c,
    ensures
        first_of(a + rest, c) == a.len(),
        (a + rest).take(a.len() as int) == a,
    decreases a.len(),
{
    let s = a + rest;
    assert(s.take(a.len() as int) =~= a);
    if a.len() > 0 {
        let more = a.drop_first();
        assert forall|i: int| 0 <= i < more.len() implies #[trigger] more[i] != c by {
            assert(more[i] == a[i + 1]);
        }
        assert(s[0] == a[0]);
        assert(s.drop_first() =~= more + rest);
        lemma_first_of(more, c, rest);
    } else {
        assert(s =~= rest);
    }
}

proof fn lemma_blank_is_free(s: Seq<char>)
    requires
        blank(s),
    ensures
        free_of(s, '='),
        free_of(s, '#'),
{
    assert forall|i: int| 0 <= i < s.len() implies #[trigger] s[i] != '=' && s[i] != '#' by {
        assert(is_space(s[i]));
    }
}

/// A setting is a key and a value around the first `=`, with white space of any length
/// on each side of both, and a comment behind it or none. It sets what the key names to
/// what the value says, and is bad where either means nothing.
pub proof fn a_setting_is_a_key_and_a_value(
    ids: MsgIds,
    w1: Seq<char>,
    key: Seq<char>,
    w2: Seq<char>,
    w3: Seq<char>,
    value: Seq<char>,
    w4: Seq<char>,
    comment: Seq<char>,
)
    requires
        blank(w1) && blank(w2) && blank(w3) && blank(w4),
        key.len() > 0 && tight(key) && free_of(key, '=') && free_of(key, '#'),
        value.len() > 0 && tight(value) && free_of(value, '#'),
        comment.len() > 0 ==> comment[0] == '#',
    ensures
        after_line(ids, w1 + key + w2 + seq!['='] + w3 + value + w4 + comment) == (match value_of(
            value,
        ) {
            Some(v) => with_id(ids, key, v),
            None => None,
        }),
{
    let left = key + w2;
    let right = w3 + value;
    let core = left + seq!['='] + right;
    let before = w1 + core + w4;
    let line = w1 + key + w2 + seq!['='] + w3 + value + w4 + comment;
    lemma_blank_is_free(w1);
    lemma_blank_is_free(w2);
    lemma_blank_is_free(w3);
    lemma_blank_is_free(w4);
    assert(line =~= before + comment);
    assert(core[0] == key[0]);
    assert(core[core.len() - 1] == value[value.len() - 1]);
    assert(free_of(core, '#')) by {
        assert forall|i: int| 0 <= i < core.len() implies #[trigger] core[i] != '#' by {
            if i < key.len() {
                assert(core[i] == key[i]);
            } else if i < left.len() {
                assert(core[i] == w2[i - key.len()]);
            } else if i == left.len() {
                assert(core[i] == '=');
            } else if i < left.len() + 1 + w3.len() {
                assert(core[i] == w3[i - left.len() - 1]);
            } else {
                assert(core[i] == value[i - left.len() - 1 - w3.len()]);
            }
        }
    }
    assert(free_of(before, '#')) by {
        assert forall|i: int| 0 <= i < before.len() implies #[trigger] before[i] != '#' by {
            if i < w1.len() {
                assert(before[i] == w1[i]);
            } else if i < w1.len() + core.len() {
                assert(before[i] == core[i - w1.len()]);
            } else {
                assert(before[i] == w4[i - w1.len() - core.len()]);
            }
        }
    }
    lemma_first_of(before, '#', comment);
    trimming_leaves_what_is_between(w1, core, w4);
    assert(meaning(line) == core);
    assert(free_of(left, '=')) by {
        assert forall|i: int| 0 <= i < left.len() implies #[trigger] left[i] != '=' by {
            if i < key.len() {
                assert(left[i] == key[i]);
            } else {
                assert(left[i] == w2[i - key.len()]);
            }
        }
    }
    assert(core =~= left + (seq!['='] + right));
    lemma_first_of(left, '=', seq!['='] + right);
    assert(core.skip(left.len() as int + 1) =~= right);
    let none = Seq::<char>::empty();
    trimming_leaves_what_is_between(none, key, w2);
    trimming_leaves_what_is_between(w3, value, none);
    assert(none + key + w2 =~= left);
    assert(w3 + value + none =~= right);
}

/// White space and a comment, or either, or neither, change nothing; anything else
/// without an `=` before its comment is bad.
pub proof fn a_comment_changes_nothing(
    ids: MsgIds,
    w1: Seq<char>,
    words: Seq<char>,
    w2: Seq<char>,
    comment: Seq<char>,
)
    requires
        blank(w1) && blank(w2),
        tight(words) && free_of(words, '#') && free_of(words, '='),
        comment.len() > 0 ==> comment[0] == '#',
    ensures
        after_line(ids, w1 + words + w2 + comment) == (if words.len() == 0 {
            Some(ids)
        } else {
            None
        }),
{
    let before = w1 + words + w2;
    lemma_blank_is_free(w1);
    lemma_blank_is_free(w2);
    assert(free_of(before, '#')) by {
        assert forall|i: int| 0 <= i < before.len() implies #[trigger] before[i] != '#' by {
            if i < w1.len() {
                assert(before[i] == w1[i]);
            } else if i < w1.len() + words.len() {
                assert(before[i] == words[i - w1.len()]);
            } else {
                assert(before[i] == w2[i - w1.len() - words.len()]);
            }
        }
    }
    lemma_first_of(before, '#', comment);
    trimming_leaves_what_is_between(w1, words, w2);
    lemma_first_of(words, '=', Seq::empty());
    assert(words + Seq::<char>::empty() =~= words);
}

/// A config is read line by line from line 1 on, over the IDs of a lab build. The first
/// bad line is the one reported; a line feed at the very end starts no further line.
pub proof fn a_config_is_read_line_by_line(
    ids: MsgIds,
    line: Seq<char>,
    rest: Seq<char>,
    number: int,
)
    requires
        free_of(line, '\n'),
    ensures
        parsed(rest) == after_lines(MsgIds::defaults(), rest, 1),
        after_lines(ids, Seq::empty(), number) == Ok::<MsgIds, ConfigError>(ids),
        after_line(ids, line) is None && line.len() > 0 ==> after_lines(ids, line, number) == Err::<
            MsgIds,
            ConfigError,
        >(ConfigError { line: number as usize }),
        after_line(ids, line) is Some && line.len() > 0 ==> after_lines(ids, line, number) == Ok::<
            MsgIds,
            ConfigError,
        >(after_line(ids, line)->0),
        after_line(ids, line) is None ==> after_lines(ids, line + seq!['\n'] + rest, number)
            == Err::<MsgIds, ConfigError>(ConfigError { line: number as usize }),
        after_line(ids, line) is Some ==> after_lines(ids, line + seq!['\n'] + rest, number)
            == after_lines(after_line(ids, line)->0, rest, number + 1),
{
    let none = Seq::<char>::empty();
    lemma_first_of(line, '\n', none);
    assert(line + none =~= line);
    let all = line + seq!['\n'] + rest;
    assert(all =~= line + (seq!['\n'] + rest));
    lemma_first_of(line, '\n', seq!['\n'] + rest);
    assert(all.skip(line.len() as int + 1) =~= rest);
}

/// A value is hexadecimal behind `0x` or `0X` and decimal otherwise, and a number that
/// 16 bits hold is read back from either.
pub proof fn a_value_is_read_in_its_base(n: u16, s: Seq<char>)
    ensures
        value_of(text::decimal(n as nat)) == Some(n),
        value_of(text::hex4(n as int)) == Some(n),
        value_of(seq!['0', 'x'] + s) == value_of(seq!['0', 'X'] + s),
        value_of(seq!['0', 'x'] + s) == (match numeral::numeral(s, 16, 65535) {
            Some(v) => Some(v as u16),
            None => None,
        }),
        value_of(Seq::empty()) is None,
{
    assert((seq!['0', 'x'] + s).skip(2) =~= s);
    assert((seq!['0', 'X'] + s).skip(2) =~= s);
    numeral::a_decimal_is_read_back(n as nat, 65535);
    let d = text::decimal(n as nat);
    assert(d.len() >= 2 ==> d[1] != 'x' && d[1] != 'X') by {
        if d.len() >= 2 {
            numeral::lemma_all_digits(d, 10, 1);
        }
    }
    numeral::a_plus_sign_changes_nothing(Seq::empty(), 10, 65535);
    lemma_hex4(n as int);
    numeral::a_plus_sign_changes_nothing(text::hex4(n as int).skip(2), 16, 65535);
}

proof fn lemma_hex_char(d: int)
    requires
        0 <= d < 16,
    ensures
        numeral::digit_value(text::hex_char(d)) == d,
        text::hex_char(d) != '+',
{
}

/// The four digits of a 16-bit value spell it.
proof fn lemma_hex4(v: int)
    requires
        0 <= v < 0x1_0000,
    ensures
        numeral::digits_value(text::hex4(v).skip(2), 16) == Some(v),
        text::hex4(v).skip(2).len() == 4,
        text::hex4(v).skip(2)[0] != '+',
{
    let (w, x, y, z) = (v / 0x1000 % 16, v / 0x100 % 16, v / 0x10 % 16, v % 16);
    lemma_hex_char(w);
    lemma_hex_char(x);
    lemma_hex_char(y);
    lemma_hex_char(z);
    let none = Seq::<char>::empty();
    let a = none.push(text::hex_char(w));
    let b = a.push(text::hex_char(x));
    let c = b.push(text::hex_char(y));
    let e = c.push(text::hex_char(z));
    assert(text::hex4(v).skip(2) =~= e);
    numeral::a_numeral_is_positional(none, text::hex_char(w), 16);
    numeral::a_numeral_is_positional(a, text::hex_char(x), 16);
    numeral::a_numeral_is_positional(b, text::hex_char(y), 16);
    numeral::a_numeral_is_positional(c, text::hex_char(z), 16);
    assert(v == ((w * 16 + x) * 16 + y) * 16 + z);
}

proof fn lemma_keys()
    ensures
        "to_lab_cmd"@.len() == 10 && "to_lab_cmd"@[0] == 't',
        "to_lab_hk_tlm"@.len() == 13 && "to_lab_hk_tlm"@[0] == 't',
        "ci_lab_cmd"@.len() == 10 && "ci_lab_cmd"@[0] == 'c',
        "ci_lab_hk_tlm"@.len() == 13 && "ci_lab_hk_tlm"@[0] == 'c',
        "sample_app_cmd"@.len() == 14,
        "sample_app_hk_tlm"@.len() == 17,
        "rust_app_cmd"@.len() == 12,
        "rust_app_hk_tlm"@.len() == 15,
        "rust_app_vehicle_tlm"@.len() == 20,
{
    reveal_strlit("to_lab_cmd");
    reveal_strlit("to_lab_hk_tlm");
    reveal_strlit("ci_lab_cmd");
    reveal_strlit("ci_lab_hk_tlm");
    reveal_strlit("sample_app_cmd");
    reveal_strlit("sample_app_hk_tlm");
    reveal_strlit("rust_app_cmd");
    reveal_strlit("rust_app_hk_tlm");
    reveal_strlit("rust_app_vehicle_tlm");
    assert("ci_lab_cmd"@[0] == 'c' && "to_lab_cmd"@[0] == 't');
    assert("ci_lab_hk_tlm"@[0] == 'c' && "to_lab_hk_tlm"@[0] == 't');
}

/// Each key sets the ID of its own name and no other, and no other key sets any.
pub proof fn a_key_sets_the_id_of_its_name(ids: MsgIds, key: Seq<char>, v: u16)
    ensures
        with_id(ids, "to_lab_cmd"@, v) == Some(MsgIds { to_lab_cmd: MsgId(v), ..ids }),
        with_id(ids, "to_lab_hk_tlm"@, v) == Some(MsgIds { to_lab_hk_tlm: MsgId(v), ..ids }),
        with_id(ids, "ci_lab_cmd"@, v) == Some(MsgIds { ci_lab_cmd: MsgId(v), ..ids }),
        with_id(ids, "ci_lab_hk_tlm"@, v) == Some(MsgIds { ci_lab_hk_tlm: MsgId(v), ..ids }),
        with_id(ids, "sample_app_cmd"@, v) == Some(MsgIds { sample_app_cmd: MsgId(v), ..ids }),
        with_id(ids, "sample_app_hk_tlm"@, v) == Some(
            MsgIds { sample_app_hk_tlm: MsgId(v), ..ids },
        ),
        with_id(ids, "rust_app_cmd"@, v) == Some(MsgIds { rust_app_cmd: MsgId(v), ..ids }),
        with_id(ids, "rust_app_hk_tlm"@, v) == Some(MsgIds { rust_app_hk_tlm: MsgId(v), ..ids }),
        with_id(ids, "rust_app_vehicle_tlm"@, v) == Some(
            MsgIds { rust_app_vehicle_tlm: MsgId(v), ..ids },
        ),
        with_id(ids, key, v) is Some ==> key == "to_lab_cmd"@ || key == "to_lab_hk_tlm"@ || key
            == "ci_lab_cmd"@ || key == "ci_lab_hk_tlm"@ || key == "sample_app_cmd"@ || key
            == "sample_app_hk_tlm"@ || key == "rust_app_cmd"@ || key == "rust_app_hk_tlm"@ || key
            == "rust_app_vehicle_tlm"@,
{
    lemma_keys();
}

} // verus!
