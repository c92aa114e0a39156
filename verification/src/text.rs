//! Character and string helpers shared by the wire format: whitespace,
//! text comparison and decimal numerals.

use vstd::prelude::*;
use vstd::std_specs::iter::IteratorSpec;
use vstd::string::{StrSliceExecFns, StringExecFns};

verus! {

/// Whether `c` separates tokens: the code points with the Unicode
/// `White_Space` property.
pub open spec fn is_space(c: char) -> bool {
    let n = c as u32;
    ||| 0x09 <= n <= 0x0D
    ||| n == 0x20
    ||| n == 0x85
    ||| n == 0xA0
    ||| n == 0x1680
    ||| 0x2000 <= n <= 0x200A
    ||| n == 0x2028
    ||| n == 0x2029
    ||| n == 0x202F
    ||| n == 0x205F
    ||| n == 0x3000
}

/// Tests whether `c` separates tokens.
pub fn is_whitespace(c: char) -> (space: bool)
    ensures
        space == is_space(c),
{
    let n: u32 = c as u32;
    (0x09 <= n && n <= 0x0D) || n == 0x20 || n == 0x85 || n == 0xA0 || n == 0x1680 || (0x2000 <= n
        && n <= 0x200A) || n == 0x2028 || n == 0x2029 || n == 0x202F || n == 0x205F || n == 0x3000
}

/// The first index at or after `from` that holds no separator, or the length
/// of `s` where only separators follow.
pub open spec fn skip_spaces(s: Seq<char>, from: int) -> int
    decreases s.len() - from,
{
    if 0 <= from < s.len() && is_space(s[from]) {
        skip_spaces(s, from + 1)
    } else {
        from
    }
}

/// The first index at or after `from` that holds a separator, or the length
/// of `s` where none follows.
pub open spec fn skip_word(s: Seq<char>, from: int) -> int
    decreases s.len() - from,
{
    if 0 <= from < s.len() && !is_space(s[from]) {
        skip_word(s, from + 1)
    } else {
        from
    }
}

/// A word: text that is not empty and holds no separator.
pub open spec fn is_word(word: Seq<char>) -> bool {
    &&& word.len() > 0
    &&& forall|i: int| 0 <= i < word.len() ==> !is_space(#[trigger] word[i])
}

/// The tokens of `s` that begin at or after `from`, in order of appearance:
/// the runs of characters that hold no separator and are not part of a
/// longer such run.
pub open spec fn tokens_from(s: Seq<char>, from: int) -> Seq<Seq<char>>
    decreases s.len() - from,
{
    let start = skip_spaces(s, from);
    let end = skip_word(s, start);
    if 0 <= from <= start < end <= s.len() {
        seq![s.subrange(start, end)] + tokens_from(s, end)
    } else {
        Seq::empty()
    }
}

/// The whitespace-separated tokens of `s`.
pub open spec fn tokens(s: Seq<char>) -> Seq<Seq<char>> {
    tokens_from(s, 0)
}

/// A scan over separators moves forward, stays within `s` and stops at a
/// character that is no separator.
pub proof fn lemma_skip_spaces(s: Seq<char>, from: int)
    requires
        0 <= from <= s.len(),
    ensures
        from <= skip_spaces(s, from) <= s.len(),
        skip_spaces(s, from) < s.len() ==> !is_space(s[skip_spaces(s, from)]),
        forall|i: int| from <= i < skip_spaces(s, from) ==> is_space(#[trigger] s[i]),
    decreases s.len() - from,
{
    if from < s.len() && is_space(s[from]) {
        lemma_skip_spaces(s, from + 1);
    }
}

/// A scan over a word moves forward, stays within `s` and stops at a
/// separator.
pub proof fn lemma_skip_word(s: Seq<char>, from: int)
    requires
        0 <= from <= s.len(),
    ensures
        from <= skip_word(s, from) <= s.len(),
        skip_word(s, from) < s.len() ==> is_space(s[skip_word(s, from)]),
        forall|i: int| from <= i < skip_word(s, from) ==> !is_space(#[trigger] s[i]),
        from < s.len() && !is_space(s[from]) ==> from < skip_word(s, from),
    decreases s.len() - from,
{
    if from < s.len() && !is_space(s[from]) {
        lemma_skip_word(s, from + 1);
    }
}

/// Tokenizing skips the separators, takes the word that follows them and
/// goes on behind it; where only separators are left, no token is.
pub proof fn lemma_tokens_from_step(s: Seq<char>, from: int)
    requires
        0 <= from <= s.len(),
    ensures
        ({
            let start = skip_spaces(s, from);
            let end = skip_word(s, start);
            &&& from <= start <= end <= s.len()
            &&& start < s.len() ==> start < end && is_word(s.subrange(start, end))
                && tokens_from(s, from) == seq![s.subrange(start, end)] + tokens_from(s, end)
            &&& start == s.len() ==> tokens_from(s, from) == Seq::<Seq<char>>::empty()
        }),
{
    lemma_skip_spaces(s, from);
    let start = skip_spaces(s, from);
    lemma_skip_word(s, start);
    let end = skip_word(s, start);
    if start < s.len() {
        assert(is_word(s.subrange(start, end)));
    }
}

/// Every token is a word.
pub proof fn lemma_tokens_are_words(s: Seq<char>, from: int)
    requires
        0 <= from <= s.len(),
    ensures
        forall|k: int|
            0 <= k < tokens_from(s, from).len() ==> is_word(#[trigger] tokens_from(s, from)[k]),
    decreases s.len() - from,
{
    lemma_tokens_from_step(s, from);
    let start = skip_spaces(s, from);
    if start < s.len() {
        let end = skip_word(s, start);
        lemma_tokens_are_words(s, end);
    }
}

/// The index at which a scan over separators stops is the only one that is
/// reached over separators alone and holds none itself.
pub proof fn lemma_skip_spaces_stops_at(s: Seq<char>, from: int, at: int)
    requires
        0 <= from <= at <= s.len(),
        forall|i: int| from <= i < at ==> is_space(#[trigger] s[i]),
        at < s.len() ==> !is_space(s[at]),
    ensures
        skip_spaces(s, from) == at,
    decreases at - from,
{
    if from < at {
        lemma_skip_spaces_stops_at(s, from + 1, at);
    }
}

/// The index at which a scan over a word stops is the only one that is
/// reached over no separator and is the end of `s` or holds one.
pub proof fn lemma_skip_word_stops_at(s: Seq<char>, from: int, at: int)
    requires
        0 <= from <= at <= s.len(),
        forall|i: int| from <= i < at ==> !is_space(#[trigger] s[i]),
        at < s.len() ==> is_space(s[at]),
    ensures
        skip_word(s, from) == at,
    decreases at - from,
{
    if from < at {
        lemma_skip_word_stops_at(s, from + 1, at);
    }
}

/// What precedes the place where tokenizing starts has no part in it.
pub proof fn lemma_tokens_from_suffix(before: Seq<char>, s: Seq<char>, from: int)
    requires
        0 <= from <= s.len(),
    ensures
        tokens_from(before + s, before.len() + from) == tokens_from(s, from),
    decreases s.len() - from,
{
    let whole = before + s;
    let shift = before.len() as int;
    let start = skip_spaces(s, from);
    lemma_skip_spaces(s, from);
    lemma_skip_spaces_stops_at(whole, shift + from, shift + start);
    let end = skip_word(s, start);
    lemma_skip_word(s, start);
    lemma_skip_word_stops_at(whole, shift + start, shift + end);
    if start < end {
        assert(whole.subrange(shift + start, shift + end) == s.subrange(start, end));
        lemma_tokens_from_suffix(before, s, end);
    }
}

/// A word that stands first, followed by nothing or by a separator, is the
/// first token.
pub proof fn lemma_tokens_word(word: Seq<char>, rest: Seq<char>)
    requires
        is_word(word),
        rest.len() > 0 ==> is_space(rest[0]),
    ensures
        tokens(word + rest) == seq![word] + tokens(rest),
{
    let whole = word + rest;
    let end = word.len() as int;
    lemma_skip_word_stops_at(whole, 0, end);
    assert(whole.subrange(0, end) == word);
    lemma_tokens_from_suffix(word, rest, 0);
}

/// A separator that stands first adds no token.
pub proof fn lemma_tokens_space(space: char, rest: Seq<char>)
    requires
        is_space(space),
    ensures
        tokens(seq![space] + rest) == tokens(rest),
{
    let whole = seq![space] + rest;
    lemma_skip_spaces(whole, 1);
    lemma_tokens_from_suffix(seq![space], rest, 0);
}

/// Scans `chars` from `from` past every separator.
pub fn scan_spaces(chars: &Vec<char>, from: usize) -> (at: usize)
    ensures
        at == skip_spaces(chars@, from as int),
        from <= at,
        from <= chars.len() ==> at <= chars.len(),
{
    let mut at = from;
    while at < chars.len() && is_whitespace(chars[at])
        invariant
            from <= at,
            from <= chars.len() ==> at <= chars.len(),
            skip_spaces(chars@, from as int) == skip_spaces(chars@, at as int),
        decreases chars.len() - at,
    {
        at += 1;
    }
    at
}

/// Scans `chars` from `from` to the end of the word that begins there.
pub fn scan_word(chars: &Vec<char>, from: usize) -> (at: usize)
    ensures
        at == skip_word(chars@, from as int),
        from <= at,
        from <= chars.len() ==> at <= chars.len(),
{
    let mut at = from;
    while at < chars.len() && !is_whitespace(chars[at])
        invariant
            from <= at,
            from <= chars.len() ==> at <= chars.len(),
            skip_word(chars@, from as int) == skip_word(chars@, at as int),
        decreases chars.len() - at,
    {
        at += 1;
    }
    at
}

/// The characters of `s`, in order.
pub fn chars_of(s: &str) -> (chars: Vec<char>)
    ensures
        chars@ == s@,
{
    broadcast use vstd::string::axiom_spec_iter;

    let mut chars: Vec<char> = Vec::new();
    for c in it: s.chars()
        invariant
            it.seq() == s@,
            chars@ == s@.take(it.index()),
    {
        chars.push(c);
    }
    chars
}

/// The number of bytes that `text` takes in UTF-8.
pub open spec fn byte_len(text: Seq<char>) -> nat {
    vstd::utf8::encode_utf8(text).len()
}

/// Counts the bytes of `text`.
pub fn byte_length(text: &str) -> (count: usize)
    ensures
        count == byte_len(text@),
{
    text.as_bytes().len()
}

/// The decimal digit of a value below ten.
pub open spec fn digit(d: nat) -> char
    recommends
        d < 10,
{
    "0123456789"@[d as int]
}

/// The decimal numeral of `n`: no sign, no leading zero but for zero itself.
pub open spec fn decimal(n: nat) -> Seq<char>
    decreases n,
{
    if n < 10 {
        seq![digit(n)]
    } else {
        decimal(n / 10).push(digit(n % 10))
    }
}

/// Appends the decimal numeral of `n` to `out`.
pub fn append_decimal(out: &mut String, n: usize)
    ensures
        final(out)@ == old(out)@ + decimal(n as nat),
    decreases n,
{
    if n >= 10 {
        append_decimal(out, n / 10);
    }
    let d = n % 10;
    proof {
        reveal_strlit("0123456789");
    }
    let text = "0123456789".substring_char(d, d + 1);
    out.append(text);
}

/// The decimal numeral of `n`.
pub fn decimal_string(n: usize) -> (text: String)
    ensures
        text@ == decimal(n as nat),
{
    let mut text = String::new();
    append_decimal(&mut text, n);
    text
}

/// Compares two strings character by character.
pub fn same_text(a: &str, b: &str) -> (same: bool)
    ensures
        same == (a@ == b@),
{
    broadcast use vstd::string::group_string_axioms;

    let mut left = a.chars();
    let mut right = b.chars();
    let ghost mut seen: int = 0;
    loop
        invariant
            0 <= seen <= a@.len(),
            seen <= b@.len(),
            left.remaining() == a@.skip(seen),
            right.remaining() == b@.skip(seen),
            a@.take(seen) == b@.take(seen),
        decreases a@.len() - seen,
    {
        let x = left.next();
        let y = right.next();
        match (x, y) {
            (None, None) => {
                assert(a@ == a@.take(seen));
                assert(b@ == b@.take(seen));
                return true;
            },
            (Some(p), Some(q)) => {
                if p != q {
                    return false;
                }
                proof {
                    seen = seen + 1;
                }
            },
            _ => {
                return false;
            },
        }
    }
}

} // verus!
