//! Command-line flags that are looked up by name.

use vstd::prelude::*;

use crate::numeral;
use crate::text;

verus! {

/// Where `name` first stands among `args`, their number if nowhere.
pub open spec fn place(args: Seq<Seq<char>>, name: Seq<char>) -> int
    decreases args.len(),
{
    if args.len() == 0 || args[0] == name {
        0
    } else {
        1 + place(args.skip(1), name)
    }
}

/// What stands behind the first `name`, if anything does.
pub open spec fn value_after(args: Seq<Seq<char>>, name: Seq<char>) -> Option<Seq<char>> {
    let i = place(args, name) + 1;
    if i < args.len() {
        Some(args[i])
    } else {
        None
    }
}

/// The decimal number up to `max` behind the first `name`, `default` where there is
/// none or it does not read as one.
pub open spec fn number_after(
    args: Seq<Seq<char>>,
    name: Seq<char>,
    max: int,
    default: int,
) -> int {
    match value_after(args, name) {
        Some(v) => match numeral::numeral(v, 10, max) {
            Some(n) => n,
            None => default,
        },
        None => default,
    }
}

/// Skipping `i` arguments that are not `name` moves its place by `i`.
proof fn lemma_place(args: Seq<Seq<char>>, name: Seq<char>, i: int)
    requires
        0 <= i <= args.len(),
        forall|j: int| 0 <= j < i ==> args[j] != name,
    ensures
        place(args, name) == i + place(args.skip(i), name),
    decreases i,
{
    if i == 0 {
        assert(args.skip(0) =~= args);
    } else {
        assert forall|j: int| 0 <= j < i - 1 implies args.skip(1)[j] != name by {
            assert(args[j + 1] != name);
        }
        assert(args[0] != name);
        lemma_place(args.skip(1), name, i - 1);
        assert(args.skip(1).skip(i - 1) =~= args.skip(i));
    }
}

fn find(args: &Vec<String>, name: &str) -> (i: usize)
    ensures
        i == place(text::texts(args@), name@),
        i <= args@.len(),
{
    let ghost all = text::texts(args@);
    let mut i: usize = 0;
    while i < args.len()
        invariant
            i <= args@.len(),
            all == text::texts(args@),
            forall|j: int| 0 <= j < i ==> all[j] != name@,
        decreases args@.len() - i,
    {
        assert(all[i as int] == args@[i as int]@);
        if text::same_text(args[i].as_str(), name) {
            proof {
                lemma_place(all, name@, i as int);
                assert(all.skip(i as int)[0] == name@);
            }
            return i;
        }
        i = i + 1;
    }
    proof {
        lemma_place(all, name@, i as int);
    }
    i
}

/// What stands behind the first `name`, if anything does.
pub fn flag_text<'a>(args: &'a Vec<String>, name: &str) -> (v: Option<&'a str>)
    ensures
        match v {
            Some(s) => value_after(text::texts(args@), name@) == Some(s@),
            None => value_after(text::texts(args@), name@) is None,
        },
{
    let i: usize = find(args, name);
    if i < args.len() && i + 1 < args.len() {
        Some(args[i + 1].as_str())
    } else {
        None
    }
}

/// The text behind the first `name`, or `default`.
pub fn flag_or(args: &Vec<String>, name: &str, default: &str) -> (s: String)
    ensures
        s@ == match value_after(text::texts(args@), name@) {
            Some(v) => v,
            None => default@,
        },
{
    match flag_text(args, name) {
        Some(v) => String::from_str(v),
        None => String::from_str(default),
    }
}

/// The number behind the first `name`, or `default`.
pub fn flag_number(args: &Vec<String>, name: &str, default: u64) -> (n: u64)
    ensures
        n == number_after(text::texts(args@), name@, u64::MAX as int, default as int),
{
    match flag_text(args, name) {
        Some(v) => match numeral::parse_decimal(v, u64::MAX) {
            Some(n) => n,
            None => default,
        },
        None => default,
    }
}

/// The port behind the first `name`, or `default`.
pub fn flag_port(args: &Vec<String>, name: &str, default: u16) -> (n: u16)
    ensures
        n == number_after(text::texts(args@), name@, u16::MAX as int, default as int),
{
    match flag_text(args, name) {
        Some(v) => match numeral::parse_decimal(v, u16::MAX as u64) {
            Some(n) => n as u16,
            None => default,
        },
        None => default,
    }
}

/// Whether `name` is among `args`.
pub fn has_flag(args: &Vec<String>, name: &str) -> (yes: bool)
    ensures
        yes == text::texts(args@).contains(name@),
{
    let ghost all = text::texts(args@);
    let i: usize = find(args, name);
    proof {
        lemma_place_holds(all, name@);
        if all.contains(name@) {
            let k = choose|k: int| 0 <= k < all.len() && all[k] == name@;
            lemma_place_is_first(all, name@, k);
        }
    }
    i < args.len()
}

proof fn lemma_place_holds(args: Seq<Seq<char>>, name: Seq<char>)
    ensures
        0 <= place(args, name) <= args.len(),
        place(args, name) < args.len() ==> args[place(args, name)] == name,
    decreases args.len(),
{
    if args.len() > 0 && args[0] != name {
        lemma_place_holds(args.skip(1), name);
    }
}

proof fn lemma_place_is_first(args: Seq<Seq<char>>, name: Seq<char>, k: int)
    requires
        0 <= k < args.len(),
        args[k] == name,
    ensures
        place(args, name) <= k,
    decreases args.len(),
{
    if args[0] != name {
        assert(args.skip(1)[k - 1] == name);
        lemma_place_is_first(args.skip(1), name, k - 1);
    }
}

/// The first of `args` that is not a flag.
pub open spec fn plain(args: Seq<Seq<char>>) -> Option<Seq<char>>
    decreases args.len(),
{
    if args.len() == 0 {
        None
    } else if text::begins(args[0], "--"@) {
        plain(args.skip(1))
    } else {
        Some(args[0])
    }
}

/// The first of `args` that does not begin with two dashes.
pub fn first_plain(args: &Vec<String>) -> (v: Option<&str>)
    ensures
        match v {
            Some(s) => plain(text::texts(args@)) == Some(s@),
            None => plain(text::texts(args@)) is None,
        },
{
    let ghost all = text::texts(args@);
    let mut i: usize = 0;
    assert(all.skip(0) =~= all);
    while i < args.len()
        invariant
            i <= args@.len(),
            all == text::texts(args@),
            plain(all) == plain(all.skip(i as int)),
        decreases args@.len() - i,
    {
        assert(all.skip(i as int)[0] == args@[i as int]@);
        assert(all.skip(i as int).skip(1) =~= all.skip(i + 1));
        if !text::begins_with(args[i].as_str(), "--") {
            return Some(args[i].as_str());
        }
        i = i + 1;
    }
    None
}

/// A flag given twice counts once: only its first value matters.
pub proof fn the_first_of_two_flags_counts(
    before: Seq<Seq<char>>,
    name: Seq<char>,
    value: Seq<char>,
    after: Seq<Seq<char>>,
)
    requires
        !before.contains(name),
    ensures
        value_after(before + seq![name, value] + after, name) == Some(value),
{
    let args = before + seq![name, value] + after;
    assert forall|j: int| 0 <= j < before.len() implies args[j] != name by {
        assert(args[j] == before[j]);
        assert(before.contains(before[j]));
    }
    lemma_place(args, name, before.len() as int);
    assert(args.skip(before.len() as int)[0] == name);
}

/// A flag that is not there has no value, and neither has one with nothing behind it; the
/// default stands in for both, and for what does not read as a number that is allowed.
pub proof fn a_flag_without_a_value_has_none(
    args: Seq<Seq<char>>,
    name: Seq<char>,
    max: int,
    default: int,
)
    ensures
        !args.contains(name) ==> value_after(args, name) is None,
        !args.contains(name) ==> value_after(args.push(name), name) is None,
        value_after(args, name) is None ==> number_after(args, name, max, default) == default,
        value_after(args, name) matches Some(v) ==> number_after(args, name, max, default) == (
        match numeral::numeral(v, 10, max) {
            Some(n) => n,
            None => default,
        }),
{
    if !args.contains(name) {
        assert forall|j: int| 0 <= j < args.len() implies args[j] != name by {
            assert(args.contains(args[j]));
        }
        lemma_place(args, name, args.len() as int);
        assert forall|j: int| 0 <= j < args.len() implies args.push(name)[j] != name by {
            assert(args.push(name)[j] == args[j]);
        }
        lemma_place(args.push(name), name, args.len() as int);
        assert(args.push(name).skip(args.len() as int)[0] == name);
    }
}

/// A number that is allowed is read back from behind its flag.
pub proof fn a_flags_number_is_read_back(
    before: Seq<Seq<char>>,
    name: Seq<char>,
    n: nat,
    after: Seq<Seq<char>>,
    max: int,
    default: int,
)
    requires
        !before.contains(name),
    ensures
        number_after(before + seq![name, text::decimal(n)] + after, name, max, default) == (
        if n <= max {
            n as int
        } else {
            default
        }),
{
    the_first_of_two_flags_counts(before, name, text::decimal(n), after);
    numeral::a_decimal_is_read_back(n, max);
}

/// The first argument that does not begin with two dashes is the plain one.
pub proof fn the_first_plain_argument_counts(args: Seq<Seq<char>>, i: int)
    requires
        0 <= i <= args.len(),
        forall|j: int|
            0 <= j < i ==> (#[trigger] args[j]).len() >= 2 && args[j][0] == '-' && args[j][1]
                == '-',
        i < args.len() ==> args[i].len() < 2 || args[i][0] != '-' || args[i][1] != '-',
    ensures
        plain(args) == (if i < args.len() {
            Some(args[i])
        } else {
            None
        }),
    decreases i,
{
    reveal_strlit("--");
    let dashes = "--"@;
    assert(dashes.len() == 2 && dashes[0] == '-' && dashes[1] == '-');
    if args.len() > 0 {
        let a = args[0];
        if a.len() >= 2 {
            assert(a.take(2)[0] == a[0] && a.take(2)[1] == a[1]);
            if a[0] == '-' && a[1] == '-' {
                assert(a.take(2) =~= dashes);
            }
        }
        if i > 0 {
            let more = args.skip(1);
            assert forall|j: int| 0 <= j < i - 1 implies (#[trigger] more[j]).len() >= 2
                && more[j][0] == '-' && more[j][1] == '-' by {
                assert(more[j] == args[j + 1]);
            }
            the_first_plain_argument_counts(more, i - 1);
        }
    }
}

} // verus!
