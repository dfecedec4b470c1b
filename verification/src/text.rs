//! Text helpers: comparison, affixes, trimming, substitution and decimal numbers.
use vstd::prelude::*;
use vstd::string::{StrSliceExecFns, StringExecFns};

verus! {

/// The texts of a sequence of strings.
pub open spec fn texts(strings: Seq<String>) -> Seq<Seq<char>> {
    strings.map_values(|s: String| s@)
}

/// Whether `part` stands in `text` at position `at`.
pub open spec fn occurs_at(text: Seq<char>, part: Seq<char>, at: int) -> bool {
    0 <= at && at + part.len() <= text.len() && text.subrange(at, at + part.len()) == part
}

/// Whether `part` stands anywhere in `text`.
pub open spec fn contains_text(text: Seq<char>, part: Seq<char>) -> bool {
    exists|at: int| occurs_at(text, part, at)
}

/// `text` with every occurrence of the non-empty `pattern` replaced by `with`, where
/// occurrences are taken from the left and do not overlap.
pub open spec fn replaced(text: Seq<char>, pattern: Seq<char>, with: Seq<char>) -> Seq<char>
    decreases text.len(),
{
    if text.len() == 0 || pattern.len() == 0 {
        text
    } else if occurs_at(text, pattern, 0) {
        with + replaced(text.skip(pattern.len() as int), pattern, with)
    } else {
        seq![text[0]] + replaced(text.drop_first(), pattern, with)
    }
}

/// Whether `c` has the Unicode property `White_Space`.
pub open spec fn is_white_space(c: char) -> bool {
    ||| '\u{9}' <= c <= '\u{d}'
    ||| c == ' '
    ||| c == '\u{85}'
    ||| c == '\u{a0}'
    ||| c == '\u{1680}'
    ||| '\u{2000}' <= c <= '\u{200a}'
    ||| c == '\u{2028}'
    ||| c == '\u{2029}'
    ||| c == '\u{202f}'
    ||| c == '\u{205f}'
    ||| c == '\u{3000}'
}

/// `text` without its leading and trailing white space.
pub open spec fn trimmed(text: Seq<char>) -> Seq<char>
    decreases text.len(),
{
    if text.len() > 0 && is_white_space(text[0]) {
        trimmed(text.drop_first())
    } else if text.len() > 0 && is_white_space(text.last()) {
        trimmed(text.drop_last())
    } else {
        text
    }
}

/// The decimal digit of value `d`.
pub open spec fn digit(d: nat) -> char {
    (('0' as u8) + d) as char
}

/// The decimal notation of `n`, without leading zeros.
pub open spec fn decimal(n: nat) -> Seq<char>
    decreases n,
{
    if n < 10 {
        seq![digit(n)]
    } else {
        decimal(n / 10).push(digit(n % 10))
    }
}

/// Whether two texts are the same.
pub fn text_eq(a: &str, b: &str) -> (same: bool)
    ensures
        same == (a@ == b@),
{
    a.to_owned() == b.to_owned()
}

/// Joins two texts.
pub fn concat2(a: &str, b: &str) -> (joined: String)
    ensures
        joined@ == a@ + b@,
{
    let mut joined = a.to_owned();
    joined.append(b);
    joined
}

/// Joins three texts.
pub fn concat3(a: &str, b: &str, c: &str) -> (joined: String)
    ensures
        joined@ == a@ + b@ + c@,
{
    let mut joined = a.to_owned();
    joined.append(b);
    joined.append(c);
    joined
}

/// Joins four texts.
pub fn concat4(a: &str, b: &str, c: &str, d: &str) -> (joined: String)
    ensures
        joined@ == a@ + b@ + c@ + d@,
{
    let mut joined = a.to_owned();
    joined.append(b);
    joined.append(c);
    joined.append(d);
    joined
}

/// Whether `c` is white space.
pub fn char_is_white_space(c: char) -> (r: bool)
    ensures
        r == is_white_space(c),
{
    ('\u{9}' <= c && c <= '\u{d}') || c == ' ' || c == '\u{85}' || c == '\u{a0}' || c == '\u{1680}'
        || ('\u{2000}' <= c && c <= '\u{200a}') || c == '\u{2028}' || c == '\u{2029}'
        || c == '\u{202f}' || c == '\u{205f}' || c == '\u{3000}'
}

/// `text` without its leading and trailing white space.
pub fn trim<'a>(text: &'a str) -> (r: &'a str)
    ensures
        r@ == trimmed(text@),
{
    let n: usize = text.unicode_len();
    let mut from: usize = 0;
    assert(text@.subrange(0, n as int) =~= text@);
    while from < n && char_is_white_space(text.get_char(from))
        invariant
            n == text@.len(),
            from <= n,
            trimmed(text@.subrange(from as int, n as int)) == trimmed(text@),
        decreases n - from,
    {
        assert(text@.subrange(from as int, n as int).drop_first() =~= text@.subrange(
            from + 1,
            n as int,
        ));
        from = from + 1;
    }
    let mut to: usize = n;
    while from < to && char_is_white_space(text.get_char(to - 1))
        invariant
            n == text@.len(),
            from <= to <= n,
            from < n ==> !is_white_space(text@[from as int]),
            trimmed(text@.subrange(from as int, to as int)) == trimmed(text@),
        decreases to - from,
    {
        assert(text@.subrange(from as int, to as int).drop_last() =~= text@.subrange(
            from as int,
            to - 1,
        ));
        to = to - 1;
    }
    text.substring_char(from, to)
}

/// `text` after `prefix`, where it starts with `prefix`.
pub fn strip_prefix<'a>(text: &'a str, prefix: &str) -> (rest: Option<&'a str>)
    ensures
        rest is Some <==> prefix@.is_prefix_of(text@),
        rest matches Some(r) ==> text@ == prefix@ + r@,
{
    let n: usize = text.unicode_len();
    let k: usize = prefix.unicode_len();
    if n < k {
        return None;
    }
    if text_eq(text.substring_char(0, k), prefix) {
        let rest = text.substring_char(k, n);
        assert(text@ =~= text@.subrange(0, k as int) + text@.subrange(k as int, n as int));
        Some(rest)
    } else {
        None
    }
}

/// Whether `text` ends with `suffix`.
pub fn ends_with(text: &str, suffix: &str) -> (r: bool)
    ensures
        r == suffix@.is_suffix_of(text@),
{
    let n: usize = text.unicode_len();
    let k: usize = suffix.unicode_len();
    n >= k && text_eq(text.substring_char(n - k, n), suffix)
}

/// Whether `part` stands anywhere in `text`.
pub fn contains(text: &str, part: &str) -> (r: bool)
    ensures
        r == contains_text(text@, part@),
{
    let n: usize = text.unicode_len();
    let k: usize = part.unicode_len();
    if n < k {
        return false;
    }
    let mut at: usize = 0;
    while at <= n - k
        invariant
            n == text@.len(),
            k == part@.len(),
            k <= n,
            at <= n - k + 1,
            forall|j: int| 0 <= j < at ==> !occurs_at(text@, part@, j),
        decreases n - k + 1 - at,
    {
        if text_eq(text.substring_char(at, at + k), part) {
            assert(occurs_at(text@, part@, at as int));
            return true;
        }
        if at == n - k {
            return false;
        }
        at = at + 1;
    }
    false
}

/// Replaces every occurrence of `pattern` in `text`.
pub fn replace(text: &str, pattern: &str, with: &str) -> (r: String)
    requires
        pattern@.len() > 0,
    ensures
        r@ == replaced(text@, pattern@, with@),
{
    let n: usize = text.unicode_len();
    let k: usize = pattern.unicode_len();
    let mut out = String::new();
    let mut at: usize = 0;
    assert(text@.skip(0) =~= text@);
    while at < n
        invariant
            n == text@.len(),
            k == pattern@.len(),
            k > 0,
            at <= n,
            out@ + replaced(text@.skip(at as int), pattern@, with@) == replaced(
                text@,
                pattern@,
                with@,
            ),
        decreases n - at,
    {
        let ghost rest = text@.skip(at as int);
        let ghost before = out@;
        if k <= n - at && text_eq(text.substring_char(at, at + k), pattern) {
            assert(rest.subrange(0, k as int) =~= text@.subrange(at as int, at + k));
            assert(occurs_at(rest, pattern@, 0));
            assert(rest.skip(k as int) =~= text@.skip(at + k));
            out.append(with);
            at = at + k;
            assert(out@ + replaced(text@.skip(at as int), pattern@, with@) =~= before + replaced(
                rest,
                pattern@,
                with@,
            ));
        } else {
            assert(!occurs_at(rest, pattern@, 0)) by {
                if occurs_at(rest, pattern@, 0) {
                    assert(rest.subrange(0, k as int) =~= text@.subrange(at as int, at + k));
                }
            }
            assert(rest.drop_first() =~= text@.skip(at + 1));
            let one = text.substring_char(at, at + 1);
            assert(one@ =~= seq![rest[0]]);
            out.append(one);
            at = at + 1;
            assert(out@ + replaced(text@.skip(at as int), pattern@, with@) =~= before + replaced(
                rest,
                pattern@,
                with@,
            ));
        }
    }
    assert(text@.skip(n as int) =~= Seq::<char>::empty());
    assert(out@ + replaced(Seq::<char>::empty(), pattern@, with@) =~= out@);
    out
}

/// The decimal digit `d` as a text.
fn digit_text(d: u128) -> (r: &'static str)
    requires
        d < 10,
    ensures
        r@ == seq![digit(d as nat)],
{
    proof {
        reveal_strlit("0");
        reveal_strlit("1");
        reveal_strlit("2");
        reveal_strlit("3");
        reveal_strlit("4");
        reveal_strlit("5");
        reveal_strlit("6");
        reveal_strlit("7");
        reveal_strlit("8");
        reveal_strlit("9");
    }
    let r = if d == 0 {
        "0"
    } else if d == 1 {
        "1"
    } else if d == 2 {
        "2"
    } else if d == 3 {
        "3"
    } else if d == 4 {
        "4"
    } else if d == 5 {
        "5"
    } else if d == 6 {
        "6"
    } else if d == 7 {
        "7"
    } else if d == 8 {
        "8"
    } else {
        "9"
    };
    assert(r@ =~= seq![digit(d as nat)]);
    r
}

/// The decimal notation of `n`.
pub fn decimal_text(n: u128) -> (r: String)
    ensures
        r@ == decimal(n as nat),
    decreases n,
{
    if n < 10 {
        digit_text(n).to_owned()
    } else {
        let mut r = decimal_text(n / 10);
        r.append(digit_text(n % 10));
        assert(r@ =~= decimal((n / 10) as nat).push(digit((n % 10) as nat)));
        r
    }
}

/// A text in which `pattern` does not occur is left as it is by substitution.
pub proof fn law_replacing_nothing_changes_nothing(
    text: Seq<char>,
    pattern: Seq<char>,
    with: Seq<char>,
)
    requires
        !contains_text(text, pattern),
    ensures
        replaced(text, pattern, with) == text,
    decreases text.len(),
{
    if text.len() > 0 && pattern.len() > 0 {
        let rest = text.drop_first();
        assert(!contains_text(rest, pattern)) by {
            if contains_text(rest, pattern) {
                let at = choose|at: int| occurs_at(rest, pattern, at);
                assert(text.subrange(at + 1, at + 1 + pattern.len()) =~= rest.subrange(
                    at,
                    at + pattern.len(),
                ));
                assert(occurs_at(text, pattern, at + 1));
            }
        }
        law_replacing_nothing_changes_nothing(rest, pattern, with);
        assert(seq![text[0]] + rest =~= text);
    }
}

/// Whether what stands in `text` from `from` to `to` has white space around it, and none at its
/// own ends.
pub open spec fn is_core(text: Seq<char>, from: int, to: int) -> bool {
    &&& 0 <= from <= to <= text.len()
    &&& forall|k: int| 0 <= k < from ==> is_white_space(#[trigger] text[k])
    &&& forall|k: int| to <= k < text.len() ==> is_white_space(#[trigger] text[k])
    &&& from < to ==> !is_white_space(text[from]) && !is_white_space(text[to - 1])
}

/// Every text has such a core.
pub proof fn lemma_core_of(text: Seq<char>) -> (core: (int, int))
    ensures
        is_core(text, core.0, core.1),
    decreases text.len(),
{
    if text.len() == 0 {
        (0, 0)
    } else if is_white_space(text.last()) {
        let front = text.drop_last();
        let (from, to) = lemma_core_of(front);
        assert forall|k: int| to <= k < text.len() implies is_white_space(#[trigger] text[k]) by {
            if k < front.len() {
                assert(front[k] == text[k]);
            }
        }
        assert forall|k: int| 0 <= k < from implies is_white_space(#[trigger] text[k]) by {
            assert(front[k] == text[k]);
        }
        (from, to)
    } else if is_white_space(text[0]) {
        let rest = text.drop_first();
        let (from, to) = lemma_core_of(rest);
        assert(from < to) by {
            if from == to {
                assert(is_white_space(rest[rest.len() - 1]));
            }
        }
        assert(to == rest.len()) by {
            if to < rest.len() {
                assert(is_white_space(rest[rest.len() - 1]));
            }
        }
        assert forall|k: int| 0 <= k < from + 1 implies is_white_space(#[trigger] text[k]) by {
            if k > 0 {
                assert(rest[k - 1] == text[k]);
            }
        }
        (from + 1, to + 1)
    } else {
        (0, text.len() as int)
    }
}

/// Trimming leaves what stands between the white space at both ends.
pub proof fn law_trimming_leaves_the_core(text: Seq<char>, from: int, to: int)
    requires
        is_core(text, from, to),
    ensures
        trimmed(text) == text.subrange(from, to),
    decreases text.len(),
{
    if text.len() > 0 && is_white_space(text[0]) {
        let rest = text.drop_first();
        if from == to {
            assert forall|k: int| 0 <= k < rest.len() implies is_white_space(
                #[trigger] rest[k],
            ) by {
                assert(rest[k] == text[k + 1]);
            }
            law_trimming_leaves_the_core(rest, 0, 0);
            assert(rest.subrange(0, 0) =~= text.subrange(from, to));
        } else {
            assert forall|k: int| 0 <= k < from - 1 implies is_white_space(#[trigger] rest[k]) by {
                assert(rest[k] == text[k + 1]);
            }
            assert forall|k: int| to - 1 <= k < rest.len() implies is_white_space(
                #[trigger] rest[k],
            ) by {
                assert(rest[k] == text[k + 1]);
            }
            law_trimming_leaves_the_core(rest, from - 1, to - 1);
            assert(rest.subrange(from - 1, to - 1) =~= text.subrange(from, to));
        }
    } else if text.len() > 0 && is_white_space(text.last()) {
        let front = text.drop_last();
        assert(from == 0);
        assert(to < text.len());
        assert(to > 0);
        assert forall|k: int| to <= k < front.len() implies is_white_space(#[trigger] front[k]) by {
            assert(front[k] == text[k]);
        }
        law_trimming_leaves_the_core(front, from, to);
        assert(front.subrange(from, to) =~= text.subrange(from, to));
    } else {
        assert(text.subrange(from, to) =~= text);
    }
}

/// The number that a row of decimal digits stands for.
pub open spec fn number_of(digits: Seq<char>) -> int
    decreases digits.len(),
{
    if digits.len() == 0 {
        0
    } else {
        number_of(digits.drop_last()) * 10 + (digits.last() as int - '0' as int)
    }
}

/// The decimal notation of a number has digits only, stands for the number, and starts with zero
/// for zero alone. So different numbers have different notations.
pub proof fn law_decimal_notation(n: nat)
    ensures
        number_of(decimal(n)) == n,
        forall|i: int| 0 <= i < decimal(n).len() ==> '0' <= #[trigger] decimal(n)[i] <= '9',
        decimal(n).len() > 0,
        decimal(n)[0] == '0' ==> n == 0,
    decreases n,
{
    let d = digit(n % 10);
    assert('0' <= d <= '9' && d as int - '0' as int == n % 10);
    if n < 10 {
        assert(decimal(n) =~= seq![d]);
        assert(decimal(n).drop_last() =~= Seq::empty());
        reveal_with_fuel(number_of, 2);
    } else {
        law_decimal_notation(n / 10);
        assert(decimal(n).drop_last() =~= decimal(n / 10));
    }
}

/// Whether `part` stands in `text`.
pub open spec fn stands_in(part: Seq<char>, text: Seq<char>) -> bool {
    exists|before: Seq<char>, after: Seq<char>| text == #[trigger] (before + part + after)
}

/// A text contains a part exactly if it is something, then the part, then something.
pub proof fn law_containing(text: Seq<char>, part: Seq<char>)
    ensures
        contains_text(text, part) <==> stands_in(part, text),
{
    if contains_text(text, part) {
        let at = choose|at: int| occurs_at(text, part, at);
        assert(text =~= text.take(at) + part + text.skip(at + part.len()));
    }
    if stands_in(part, text) {
        let (before, after) = choose|before: Seq<char>, after: Seq<char>|
            text == #[trigger] (before + part + after);
        let at = before.len() as int;
        assert(text.subrange(at, at + part.len()) =~= part);
        assert(occurs_at(text, part, at));
    }
}

/// Substitution goes from left to right: what stands before the first occurrence is kept, the
/// occurrence is replaced, and the rest is treated alike.
pub proof fn law_replacing_goes_from_left_to_right(
    before: Seq<char>,
    pattern: Seq<char>,
    rest: Seq<char>,
    with: Seq<char>,
)
    requires
        pattern.len() > 0,
        !stands_in(pattern, before + pattern.drop_last()),
    ensures
        replaced(before + pattern + rest, pattern, with) == before + with + replaced(
            rest,
            pattern,
            with,
        ),
    decreases before.len(),
{
    let text = before + pattern + rest;
    if before.len() == 0 {
        assert(text.subrange(0, pattern.len() as int) =~= pattern);
        assert(text.skip(pattern.len() as int) =~= rest);
        assert(before + with + replaced(rest, pattern, with) =~= with + replaced(
            rest,
            pattern,
            with,
        ));
    } else {
        let fewer = before.drop_first();
        assert(!occurs_at(text, pattern, 0)) by {
            if occurs_at(text, pattern, 0) {
                let head = before + pattern.drop_last();
                assert(head.subrange(0, pattern.len() as int) =~= text.subrange(
                    0,
                    pattern.len() as int,
                ));
                assert(head =~= Seq::empty() + pattern + head.skip(pattern.len() as int));
            }
        }
        assert(!stands_in(pattern, fewer + pattern.drop_last())) by {
            if stands_in(pattern, fewer + pattern.drop_last()) {
                let (a, b) = choose|a: Seq<char>, b: Seq<char>|
                    fewer + pattern.drop_last() == #[trigger] (a + pattern + b);
                let head = before + pattern.drop_last();
                assert(head =~= seq![before[0]] + (fewer + pattern.drop_last()));
                assert(head =~= (seq![before[0]] + a) + pattern + b);
            }
        }
        law_replacing_goes_from_left_to_right(fewer, pattern, rest, with);
        assert(text.drop_first() =~= fewer + pattern + rest);
        assert(before =~= seq![before[0]] + fewer);
        assert(replaced(text, pattern, with) =~= before + with + replaced(rest, pattern, with));
    }
}

/// A text in which the pattern does not stand is kept.
pub proof fn law_texts_without_the_pattern_are_kept(
    text: Seq<char>,
    pattern: Seq<char>,
    with: Seq<char>,
)
    requires
        !stands_in(pattern, text),
    ensures
        replaced(text, pattern, with) == text,
{
    law_containing(text, pattern);
    law_replacing_nothing_changes_nothing(text, pattern, with);
}

/// White space are the characters with the code points that Unicode lists for it, and no others.
pub proof fn law_white_space(c: char)
    ensures
        is_white_space(c) <==> {
            let code = c as int;
            ||| 0x9 <= code <= 0xd
            ||| code == 0x20
            ||| code == 0x85
            ||| code == 0xa0
            ||| code == 0x1680
            ||| 0x2000 <= code <= 0x200a
            ||| 0x2028 <= code <= 0x2029
            ||| code == 0x202f
            ||| code == 0x205f
            ||| code == 0x3000
        },
{
}

} // verus!
