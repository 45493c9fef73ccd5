//! Text: white space, case folding, and decimal numerals.

use vstd::prelude::*;

verus! {

/// The characters of a text that may be missing.
pub open spec fn optional(text: Option<String>) -> Option<Seq<char>> {
    match text {
        Some(t) => Some(t@),
        None => None,
    }
}

pub(crate) fn copy_text(text: &Option<String>) -> (copy: Option<String>)
    ensures
        optional(copy) == optional(*text),
{
    match text {
        Some(text) => Some(text.clone()),
        None => None,
    }
}

// ---------------------------------------------------------------------------
// White space
// ---------------------------------------------------------------------------

/// The characters with the Unicode property `White_Space`.
pub open spec fn is_white_space(c: char) -> bool {
    ||| '\u{9}' <= c <= '\u{d}'
    ||| c == ' '
    ||| c == '\u{85}'
    ||| c == '\u{a0}'
    ||| c == '\u{1680}'
    ||| '\u{2000}' <= c <= '\u{200a}'
    ||| c == '\u{2028}'
    ||| c == '\u{2029}'
    ||| c == '\u{202f}'
    ||| c == '\u{205f}'
    ||| c == '\u{3000}'
}

/// `text` from its first character that is no white space on.
pub open spec fn without_leading_space(text: Seq<char>) -> Seq<char>
    decreases text.len(),
{
    if text.len() > 0 && is_white_space(text.first()) {
        without_leading_space(text.drop_first())
    } else {
        text
    }
}

/// `text` up to its last character that is no white space.
pub open spec fn without_trailing_space(text: Seq<char>) -> Seq<char>
    decreases text.len(),
{
    if text.len() > 0 && is_white_space(text.last()) {
        without_trailing_space(text.drop_last())
    } else {
        text
    }
}

/// `text` without white space at either end.
pub open spec fn trimmed(text: Seq<char>) -> Seq<char> {
    without_trailing_space(without_leading_space(text))
}

/// The characters of `text` before its first white space.
pub open spec fn leading_word(text: Seq<char>) -> Seq<char>
    decreases text.len(),
{
    if text.len() == 0 || is_white_space(text.first()) {
        Seq::empty()
    } else {
        seq![text.first()] + leading_word(text.drop_first())
    }
}

/// The maximal runs of characters that are no white space, in order: the first of them, if any.
pub open spec fn first_word(text: Seq<char>) -> Option<Seq<char>> {
    let rest = without_leading_space(text);
    if rest.len() == 0 {
        None
    } else {
        Some(leading_word(rest))
    }
}

/// What follows the first word of `text`.
pub open spec fn after_first_word(text: Seq<char>) -> Seq<char> {
    let rest = without_leading_space(text);
    rest.skip(leading_word(rest).len() as int)
}

/// `text` without the `/` at its end.
pub open spec fn without_trailing_slashes(text: Seq<char>) -> Seq<char>
    decreases text.len(),
{
    if text.len() > 0 && text.last() == '/' {
        without_trailing_slashes(text.drop_last())
    } else {
        text
    }
}

pub proof fn lemma_without_trailing_slashes(text: Seq<char>)
    ensures
        without_trailing_slashes(text).len() == 0 || without_trailing_slashes(text).last() != '/',
    decreases text.len(),
{
    if text.len() > 0 && text.last() == '/' {
        lemma_without_trailing_slashes(text.drop_last());
    }
}

fn white_space(c: char) -> (white: bool)
    ensures
        white == is_white_space(c),
{
    ('\u{9}' <= c && c <= '\u{d}') || c == ' ' || c == '\u{85}' || c == '\u{a0}' || c == '\u{1680}'
        || ('\u{2000}' <= c && c <= '\u{200a}') || c == '\u{2028}' || c == '\u{2029}' || c
        == '\u{202f}' || c == '\u{205f}' || c == '\u{3000}'
}

/// The characters of `text`.
pub(crate) fn characters(text: &str) -> (chars: Vec<char>)
    ensures
        chars@ == text@,
{
    let mut chars: Vec<char> = Vec::new();
    for c in it: text.chars()
        invariant
            it.seq() == text@,
            chars@ == text@.take(it.index()),
    {
        chars.push(c);
    }
    chars
}

/// `text` without white space at either end.
pub(crate) fn trim(text: &str) -> (inner: &str)
    ensures
        inner@ == trimmed(text@),
{
    let chars = characters(text);
    let mut from: usize = 0;
    assert(text@.skip(0) == text@);
    while from < chars.len() && white_space(chars[from])
        invariant
            from <= chars.len(),
            chars@ == text@,
            without_leading_space(text@.skip(from as int)) == without_leading_space(text@),
        decreases chars.len() - from,
    {
        assert(text@.skip(from as int).drop_first() == text@.skip(from + 1));
        from = from + 1;
    }
    assert(without_leading_space(text@) == text@.skip(from as int));
    let mut to: usize = chars.len();
    assert(text@.subrange(from as int, to as int) == text@.skip(from as int));
    while to > from && white_space(chars[to - 1])
        invariant
            from <= to <= chars.len(),
            chars@ == text@,
            without_trailing_space(text@.subrange(from as int, to as int)) == trimmed(text@),
        decreases to,
    {
        assert(text@.subrange(from as int, to as int).drop_last() == text@.subrange(from as int, to - 1));
        to = to - 1;
    }
    text.substring_char(from, to)
}

/// `text` without the `/` at its end.
pub(crate) fn trim_end_slashes(text: &str) -> (inner: &str)
    ensures
        inner@ == without_trailing_slashes(text@),
{
    let chars = characters(text);
    let mut to: usize = chars.len();
    assert(text@.take(to as int) == text@);
    while to > 0 && chars[to - 1] == '/'
        invariant
            to <= chars.len(),
            chars@ == text@,
            without_trailing_slashes(text@.take(to as int)) == without_trailing_slashes(text@),
        decreases to,
    {
        assert(text@.take(to as int).drop_last() == text@.take(to - 1));
        to = to - 1;
    }
    assert(text@.take(to as int) == text@.subrange(0, to as int));
    text.substring_char(0, to)
}

/// The first word of a text ends at its first white space.
pub proof fn lemma_leading_word(text: Seq<char>, n: int)
    requires
        0 <= n <= text.len(),
        forall|i: int| 0 <= i < n ==> !is_white_space(#[trigger] text[i]),
        n == text.len() || is_white_space(text[n]),
    ensures
        leading_word(text) == text.take(n),
    decreases n,
{
    if n > 0 {
        let rest = text.drop_first();
        assert forall|i: int| 0 <= i < n - 1 implies !is_white_space(#[trigger] rest[i]) by {
            assert(rest[i] == text[i + 1]);
        }
        lemma_leading_word(rest, n - 1);
        assert(text.take(n) == seq![text.first()] + rest.take(n - 1));
    }
}

/// Splits the first word off `text`; the second part is what follows it.
pub(crate) fn split_first_word(text: &str) -> (split: Option<(&str, &str)>)
    ensures
        match split {
            Some((word, rest)) => first_word(text@) == Some(word@) && rest@ == after_first_word(text@),
            None => first_word(text@) is None,
        },
{
    let chars = characters(text);
    let mut from: usize = 0;
    assert(text@.skip(0) == text@);
    while from < chars.len() && white_space(chars[from])
        invariant
            from <= chars.len(),
            chars@ == text@,
            without_leading_space(text@.skip(from as int)) == without_leading_space(text@),
        decreases chars.len() - from,
    {
        assert(text@.skip(from as int).drop_first() == text@.skip(from + 1));
        from = from + 1;
    }
    let ghost rest = text@.skip(from as int);
    assert(without_leading_space(text@) == rest);
    if from == chars.len() {
        return None;
    }
    let mut to: usize = from;
    while to < chars.len() && !white_space(chars[to])
        invariant
            from <= to <= chars.len(),
            chars@ == text@,
            rest == text@.skip(from as int),
            forall|i: int| 0 <= i < to - from ==> !is_white_space(#[trigger] rest[i]),
        decreases chars.len() - to,
    {
        to = to + 1;
    }
    proof {
        lemma_leading_word(rest, to - from);
        assert(text@.subrange(from as int, to as int) == rest.take(to - from));
        assert(text@.subrange(to as int, text@.len() as int) == rest.skip(to - from));
    }
    Some((text.substring_char(from, to), text.substring_char(to, chars.len())))
}

// ---------------------------------------------------------------------------
// Comparison and case
// ---------------------------------------------------------------------------

/// Whether a text begins with another.
pub open spec fn begins_with(text: Seq<char>, start: Seq<char>) -> bool {
    start.len() <= text.len() && text.take(start.len() as int) == start
}

/// Whether two texts have the same characters.
pub(crate) fn same_text(left: &str, right: &str) -> (same: bool)
    ensures
        same == (left@ == right@),
{
    left.to_owned() == right.to_owned()
}

/// Whether `c` occurs in `text`.
pub(crate) fn has_char(text: &str, c: char) -> (found: bool)
    ensures
        found == text@.contains(c),
{
    let chars = characters(text);
    let mut i: usize = 0;
    while i < chars.len()
        invariant
            i <= chars.len(),
            chars@ == text@,
            forall|j: int| 0 <= j < i ==> text@[j] != c,
        decreases chars.len() - i,
    {
        if chars[i] == c {
            assert(text@[i as int] == c);
            return true;
        }
        i = i + 1;
    }
    false
}

/// The ASCII letters `A` to `Z` as `a` to `z`; every other character as it is.
pub open spec fn ascii_lowercase(text: Seq<char>) -> Seq<char> {
    text.map_values(|c: char| if 'A' <= c <= 'Z' { ((c as u32) + 32) as char } else { c })
}

/// What `str::to_lowercase` gives for a text with a character outside ASCII.
pub uninterp spec fn unicode_lowercase(text: Seq<char>) -> Seq<char>;

/// The lower-case form of `text`.
pub open spec fn lowercase(text: Seq<char>) -> Seq<char> {
    if vstd::utf8::is_ascii_chars(text) {
        ascii_lowercase(text)
    } else {
        unicode_lowercase(text)
    }
}

/// `str::to_lowercase` of the standard library. On ASCII text it maps the letters `A` to `Z` to
/// `a` to `z` and nothing else; on other text its result, which follows the Unicode tables, is a
/// function of the text alone.
#[verifier::external_body]
pub(crate) fn to_lowercase(text: &str) -> (lower: String)
    ensures
        vstd::utf8::is_ascii_chars(text@) ==> lower@ == ascii_lowercase(text@),
        !vstd::utf8::is_ascii_chars(text@) ==> lower@ == unicode_lowercase(text@),
{
    text.to_lowercase()
}

// ---------------------------------------------------------------------------
// Numerals
// ---------------------------------------------------------------------------

/// The decimal digit of a number below ten.
pub open spec fn digit(n: nat) -> char {
    (('0' as u32) + n) as char
}

/// The decimal numeral of `n`, without leading zeros.
pub open spec fn decimal(n: nat) -> Seq<char>
    decreases n,
{
    if n < 10 {
        seq![digit(n)]
    } else {
        decimal(n / 10).push(digit(n % 10))
    }
}

/// A digit stands for one number.
proof fn lemma_digit(n: nat)
    requires
        n < 10,
    ensures
        digit(n) as int == 48 + n,
{
}

/// A numeral has no space in it.
pub proof fn lemma_decimal_digits(n: nat)
    ensures
        forall|i: int| 0 <= i < decimal(n).len() ==> #[trigger] decimal(n)[i] != ' ',
    decreases n,
{
    lemma_digit(n % 10);
    if n >= 10 {
        lemma_decimal_digits(n / 10);
        assert forall|i: int| 0 <= i < decimal(n).len() implies #[trigger] decimal(n)[i] != ' ' by {
            if i < decimal(n / 10).len() {
                assert(decimal(n)[i] == decimal(n / 10)[i]);
            }
        }
    }
}

/// A numeral is made of digits.
pub proof fn lemma_decimal_is_made_of_digits(n: nat)
    ensures
        forall|i: int| 0 <= i < decimal(n).len() ==> '0' <= #[trigger] decimal(n)[i] <= '9',
    decreases n,
{
    lemma_digit(n % 10);
    if n >= 10 {
        lemma_decimal_is_made_of_digits(n / 10);
        assert forall|i: int| 0 <= i < decimal(n).len() implies '0' <= #[trigger] decimal(n)[i]
            <= '9' by {
            if i < decimal(n / 10).len() {
                assert(decimal(n)[i] == decimal(n / 10)[i]);
            }
        }
    }
}

/// Different numbers have different numerals.
pub proof fn lemma_decimals_differ(n: nat, m: nat)
    requires
        n != m,
    ensures
        decimal(n) != decimal(m),
    decreases n,
{
    let a = decimal(n);
    let b = decimal(m);
    if n >= 10 {
        assert(a.drop_last() =~= decimal(n / 10));
        assert(a.last() == digit(n % 10));
        lemma_decimal_is_not_empty(n / 10);
    }
    if m >= 10 {
        assert(b.drop_last() =~= decimal(m / 10));
        assert(b.last() == digit(m % 10));
        lemma_decimal_is_not_empty(m / 10);
    }
    lemma_digit(n % 10);
    lemma_digit(m % 10);
    if n >= 10 && m >= 10 && n / 10 != m / 10 {
        lemma_decimals_differ(n / 10, m / 10);
    } else if n >= 10 && m >= 10 {
        assert(n % 10 != m % 10);
    } else if n < 10 && m < 10 {
        assert(a[0] == digit(n) && b[0] == digit(m));
    }
}

proof fn lemma_decimal_is_not_empty(n: nat)
    ensures
        decimal(n).len() > 0,
{
}

fn digit_text(n: u64) -> (text: &'static str)
    requires
        n < 10,
    ensures
        text@ == seq![digit(n as nat)],
{
    proof {
        reveal_strlit("0");
        reveal_strlit("1");
        reveal_strlit("2");
        reveal_strlit("3");
        reveal_strlit("4");
        reveal_strlit("5");
        reveal_strlit("6");
        reveal_strlit("7");
        reveal_strlit("8");
        reveal_strlit("9");
    }
    match n {
        0 => "0",
        1 => "1",
        2 => "2",
        3 => "3",
        4 => "4",
        5 => "5",
        6 => "6",
        7 => "7",
        8 => "8",
        _ => "9",
    }
}

/// The decimal numeral of `n`.
pub(crate) fn to_decimal(n: u64) -> (text: String)
    ensures
        text@ == decimal(n as nat),
    decreases n,
{
    if n < 10 {
        digit_text(n).to_owned()
    } else {
        let mut text = to_decimal(n / 10);
        text.append(digit_text(n % 10));
        assert(text@ == decimal((n / 10) as nat).push(digit((n % 10) as nat)));
        text
    }
}

/// What is cut off the end of a text are slashes, and all of them.
pub proof fn lemma_only_slashes_are_cut(text: Seq<char>)
    ensures
        ({
            let cut = without_trailing_slashes(text);
            &&& cut.len() <= text.len()
            &&& cut == text.take(cut.len() as int)
            &&& cut.len() == 0 || cut.last() != '/'
            &&& forall|i: int| cut.len() <= i < text.len() ==> #[trigger] text[i] == '/'
        }),
    decreases text.len(),
{
    if text.len() > 0 && text.last() == '/' {
        let shorter = text.drop_last();
        lemma_only_slashes_are_cut(shorter);
        let cut = without_trailing_slashes(text);
        assert(shorter.take(cut.len() as int) =~= text.take(cut.len() as int));
        assert forall|i: int| cut.len() <= i < text.len() implies #[trigger] text[i] == '/' by {
            if i < shorter.len() {
                assert(shorter[i] == text[i]);
            }
        }
    } else {
        assert(text.take(text.len() as int) =~= text);
    }
}

proof fn lemma_leading_space(text: Seq<char>)
    ensures
        ({
            let inner = without_leading_space(text);
            &&& inner.len() <= text.len()
            &&& inner == text.skip(text.len() - inner.len())
            &&& inner.len() > 0 ==> !is_white_space(inner[0])
            &&& forall|i: int|
                0 <= i < text.len() - inner.len() ==> is_white_space(#[trigger] text[i])
        }),
    decreases text.len(),
{
    if text.len() > 0 && is_white_space(text.first()) {
        let rest = text.drop_first();
        lemma_leading_space(rest);
        let inner = without_leading_space(text);
        assert(rest.skip(rest.len() - inner.len()) =~= text.skip(text.len() - inner.len()));
        assert forall|i: int| 0 <= i < text.len() - inner.len() implies is_white_space(
            #[trigger] text[i],
        ) by {
            if i > 0 {
                assert(rest[i - 1] == text[i]);
            }
        }
    } else {
        assert(text.skip(0) =~= text);
    }
}

proof fn lemma_trailing_space(text: Seq<char>)
    ensures
        ({
            let inner = without_trailing_space(text);
            &&& inner.len() <= text.len()
            &&& inner == text.take(inner.len() as int)
            &&& inner.len() > 0 ==> !is_white_space(inner.last())
            &&& forall|i: int| inner.len() <= i < text.len() ==> is_white_space(#[trigger] text[i])
        }),
    decreases text.len(),
{
    if text.len() > 0 && is_white_space(text.last()) {
        let rest = text.drop_last();
        lemma_trailing_space(rest);
        let inner = without_trailing_space(text);
        assert(rest.take(inner.len() as int) =~= text.take(inner.len() as int));
        assert forall|i: int| inner.len() <= i < text.len() implies is_white_space(
            #[trigger] text[i],
        ) by {
            if i < rest.len() {
                assert(rest[i] == text[i]);
            }
        }
    } else {
        assert(text.take(text.len() as int) =~= text);
    }
}

/// A trimmed text is a part of the text that has white space neither at its start nor at its end,
/// and around which the text has nothing but white space.
pub proof fn law_trimmed(text: Seq<char>) -> (start: int)
    ensures
        0 <= start <= start + trimmed(text).len() <= text.len(),
        trimmed(text) == text.subrange(start, start + trimmed(text).len()),
        trimmed(text).len() > 0 ==> !is_white_space(trimmed(text)[0]) && !is_white_space(
            trimmed(text).last(),
        ),
        forall|i: int| 0 <= i < start ==> is_white_space(#[trigger] text[i]),
        forall|i: int|
            start + trimmed(text).len() <= i < text.len() ==> is_white_space(#[trigger] text[i]),
{
    let inner = without_leading_space(text);
    lemma_leading_space(text);
    lemma_trailing_space(inner);
    let start = text.len() - inner.len();
    let end = start + trimmed(text).len();
    assert(trimmed(text) =~= text.subrange(start, end));
    assert forall|i: int| end <= i < text.len() implies is_white_space(#[trigger] text[i]) by {
        assert(inner[i - start] == text[i]);
    }
    start
}

/// A numeral ends in the digit of the units, and what stands before that is the numeral of the
/// tens.
pub proof fn law_numerals(n: nat)
    ensures
        decimal(n).len() > 0,
        decimal(n).last() as int == 48 + n % 10,
        n < 10 ==> decimal(n).len() == 1,
        n >= 10 ==> decimal(n).drop_last() == decimal(n / 10),
{
    lemma_digit(n % 10);
    if n >= 10 {
        assert(decimal(n).drop_last() =~= decimal(n / 10));
    }
}

/// The white space of Unicode, by its code points.
pub proof fn law_white_space(c: char)
    ensures
        is_white_space(c) <==> {
            let point = c as int;
            9 <= point <= 13 || point == 32 || point == 133 || point == 160 || point == 5760 || 8192
                <= point <= 8202 || point == 8232 || point == 8233 || point == 8239 || point == 8287
                || point == 12288
        },
{
}

/// The first word of a text with a word in it has no white space, and what follows it is empty or
/// starts with white space.
pub proof fn law_first_word(text: Seq<char>)
    ensures
        first_word(text) is None <==> forall|i: int|
            0 <= i < text.len() ==> is_white_space(#[trigger] text[i]),
        first_word(text) matches Some(word) ==> {
            let rest = without_leading_space(text);
            &&& word.len() > 0
            &&& rest == word + after_first_word(text)
            &&& forall|i: int| 0 <= i < word.len() ==> !is_white_space(#[trigger] word[i])
            &&& after_first_word(text).len() > 0 ==> is_white_space(after_first_word(text)[0])
        },
{
    lemma_leading_space(text);
    let rest = without_leading_space(text);
    if rest.len() > 0 {
        assert(rest[0] == text[text.len() - rest.len()]);
        let n = lemma_leading_word_ends(rest);
        assert(rest =~= rest.take(n) + rest.skip(n));
        if n < rest.len() {
            assert(rest.skip(n)[0] == rest[n]);
        }
    }
}

proof fn lemma_leading_word_ends(text: Seq<char>) -> (n: int)
    ensures
        0 <= n <= text.len(),
        leading_word(text) == text.take(n),
        forall|i: int| 0 <= i < n ==> !is_white_space(#[trigger] text[i]),
        n == text.len() || is_white_space(text[n]),
    decreases text.len(),
{
    if text.len() == 0 || is_white_space(text.first()) {
        assert(text.take(0) =~= Seq::<char>::empty());
        0
    } else {
        let rest = text.drop_first();
        let n = lemma_leading_word_ends(rest);
        assert(text.take(n + 1) =~= seq![text.first()] + rest.take(n));
        assert forall|i: int| 0 <= i < n + 1 implies !is_white_space(#[trigger] text[i]) by {
            if i > 0 {
                assert(rest[i - 1] == text[i]);
            }
        }
        n + 1
    }
}

} // verus!
