//! Texts compared and classified.

use vstd::prelude::*;
use vstd::string::*;
use vstd::utf8::encode_utf8_decode_utf8;
use crate::bytes::same_bytes;

verus! {

/// Whether two texts are the same.
pub fn same_text(a: &str, b: &str) -> (same: bool)
    ensures
        same == (a@ == b@),
{
    proof {
        encode_utf8_decode_utf8(a@);
        encode_utf8_decode_utf8(b@);
    }
    same_bytes(a.as_bytes(), b.as_bytes())
}

/// What `char::is_alphanumeric` answers for a character.
pub uninterp spec fn alphanumeric(c: char) -> bool;

/// What `str::to_lowercase` makes of a text.
pub uninterp spec fn lowercase(text: Seq<char>) -> Seq<char>;

/// `char::is_alphanumeric`: whether the character is a letter or a number
/// by the Unicode tables. The answer is given a name and nothing more is
/// claimed of it.
#[verifier::external_body]
pub(crate) fn is_alphanumeric(c: char) -> (yes: bool)
    ensures
        yes == alphanumeric(c),
{
    c.is_alphanumeric()
}

/// `str::to_lowercase`: the text in lower case by the Unicode tables. The
/// result is given a name and nothing more is claimed of it.
#[verifier::external_body]
pub(crate) fn to_lowercase(text: &str) -> (lower: String)
    ensures
        lower@ == lowercase(text@),
{
    text.to_lowercase()
}

/// The strings of a list as plain values.
pub open spec fn texts_of(strings: Seq<String>) -> Seq<Seq<char>> {
    Seq::new(strings.len(), |i: int| strings[i]@)
}

/// A copy of a list of strings.
pub fn copy_texts(list: &Vec<String>) -> (copy: Vec<String>)
    ensures
        texts_of(copy@) == texts_of(list@),
{
    let n: usize = list.len();
    let mut copy: Vec<String> = Vec::with_capacity(n);
    let mut i: usize = 0;
    while i < n
        invariant
            n == list@.len(),
            i <= n,
            copy@.len() == i,
            forall|k: int| 0 <= k < i ==> (#[trigger] copy@[k])@ == list@[k]@,
        decreases n - i,
    {
        copy.push(list[i].clone());
        i = i + 1;
    }
    assert(texts_of(copy@) =~= texts_of(list@));
    copy
}

/// Index of the first line feed in a text, or its length where it has
/// none.
pub open spec fn first_newline(text: Seq<char>) -> int
    decreases text.len(),
{
    if text.len() == 0 {
        0
    } else if text[0] == '\n' {
        0
    } else {
        1 + first_newline(text.drop_first())
    }
}

/// A line without the carriage return that stood before its line feed.
pub open spec fn without_return(line: Seq<char>) -> Seq<char> {
    if line.len() > 0 && line.last() == '\r' {
        line.drop_last()
    } else {
        line
    }
}

/// The lines of a text. A line ends at a line feed, or at a carriage return
/// and a line feed; neither belongs to the line. The last line needs no
/// line feed, and keeps a carriage return that it ends on; behind a final
/// line feed there is no further line.
pub open spec fn lines_spec(text: Seq<char>) -> Seq<Seq<char>>
    decreases text.len(),
{
    if text.len() == 0 {
        Seq::empty()
    } else {
        let at = first_newline(text);
        proof {
            lemma_first_newline(text);
        }
        if at >= text.len() {
            seq![text]
        } else {
            seq![without_return(text.subrange(0, at))] + lines_spec(
                text.subrange(at + 1, text.len() as int),
            )
        }
    }
}

/// `first_newline` names the first line feed.
pub proof fn lemma_first_newline(text: Seq<char>)
    ensures
        0 <= first_newline(text) <= text.len(),
        first_newline(text) < text.len() ==> text[first_newline(text)] == '\n',
        forall|k: int| 0 <= k < first_newline(text) ==> #[trigger] text[k] != '\n',
    decreases text.len(),
{
    if text.len() > 0 && text[0] != '\n' {
        let rest = text.drop_first();
        lemma_first_newline(rest);
        assert forall|k: int| 0 <= k < first_newline(text) implies #[trigger] text[k] != '\n' by {
            if k > 0 {
                assert(text[k] == rest[k - 1]);
            }
        }
    }
}

/// The first line feed of what stands from `from` on is the first line
/// feed at or behind `from`.
pub proof fn lemma_newline_from(text: Seq<char>, from: int, at: int)
    requires
        0 <= from <= at <= text.len(),
        forall|k: int| from <= k < at ==> #[trigger] text[k] != '\n',
        at < text.len() ==> text[at] == '\n',
    ensures
        first_newline(text.subrange(from, text.len() as int)) == at - from,
    decreases at - from,
{
    let rest = text.subrange(from, text.len() as int);
    if from < at {
        assert(rest[0] == text[from]);
        assert(rest.drop_first() =~= text.subrange(from + 1, text.len() as int));
        lemma_newline_from(text, from + 1, at);
    } else if at < text.len() {
        assert(rest[0] == text[at]);
    }
}

/// Splits a text into its lines.
pub fn split_lines(text: &str) -> (lines: Vec<String>)
    ensures
        texts_of(lines@) == lines_spec(text@),
{
    let n: usize = text.unicode_len();
    let mut lines: Vec<String> = Vec::new();
    let mut start: usize = 0;
    assert(text@.subrange(0, n as int) =~= text@);
    assert(texts_of(lines@) + lines_spec(text@) =~= lines_spec(text@));
    while start < n
        invariant
            n == text@.len(),
            start <= n,
            texts_of(lines@) + lines_spec(text@.subrange(start as int, n as int)) == lines_spec(
                text@,
            ),
        decreases n - start,
    {
        let ghost rest = text@.subrange(start as int, n as int);
        let ghost sofar = texts_of(lines@);
        let mut end: usize = start;
        while end < n && text.get_char(end) != '\n'
            invariant
                n == text@.len(),
                start <= end <= n,
                forall|k: int| start <= k < end ==> #[trigger] text@[k] != '\n',
            decreases n - end,
        {
            end = end + 1;
        }
        proof {
            lemma_newline_from(text@, start as int, end as int);
        }
        if end == n {
            let line = String::from_str(text.substring_char(start, n));
            lines.push(line);
            assert(texts_of(lines@) =~= sofar.push(rest));
            assert(lines_spec(text@.subrange(n as int, n as int)) =~= Seq::<Seq<char>>::empty());
            assert(sofar.push(rest) + Seq::<Seq<char>>::empty() =~= sofar + lines_spec(rest));
            start = n;
        } else {
            let ghost raw = text@.subrange(start as int, end as int);
            assert(raw =~= rest.subrange(0, end - start));
            let stop: usize = if end > start && text.get_char(end - 1) == '\r' {
                end - 1
            } else {
                end
            };
            let line = String::from_str(text.substring_char(start, stop));
            assert(line@ =~= without_return(raw));
            lines.push(line);
            assert(texts_of(lines@) =~= sofar.push(without_return(raw)));
            assert(rest.subrange(end - start + 1, rest.len() as int) =~= text@.subrange(
                end as int + 1,
                n as int,
            ));
            assert(sofar.push(without_return(raw)) + lines_spec(
                text@.subrange(end as int + 1, n as int),
            ) =~= sofar + lines_spec(rest));
            start = end + 1;
        }
    }
    assert(lines_spec(text@.subrange(n as int, n as int)) =~= Seq::<Seq<char>>::empty());
    assert(texts_of(lines@) + Seq::<Seq<char>>::empty() =~= texts_of(lines@));
    lines
}

/// Whether `text` starts with `prefix`.
pub fn has_prefix(text: &str, prefix: &str) -> (yes: bool)
    ensures
        yes == prefix@.is_prefix_of(text@),
{
    let n: usize = prefix.unicode_len();
    let m: usize = text.unicode_len();
    if n > m {
        return false;
    }
    let mut i: usize = 0;
    while i < n
        invariant
            n == prefix@.len(),
            m == text@.len(),
            n <= m,
            i <= n,
            forall|k: int| 0 <= k < i ==> text@[k] == prefix@[k],
        decreases n - i,
    {
        if text.get_char(i) != prefix.get_char(i) {
            assert(text@.subrange(0, n as int)[i as int] != prefix@[i as int]);
            return false;
        }
        i = i + 1;
    }
    assert(prefix@ =~= text@.subrange(0, n as int));
    true
}

/// `needle` stands somewhere in `text`.
pub open spec fn contains_spec(text: Seq<char>, needle: Seq<char>) -> bool {
    exists|at: int|
        0 <= at <= text.len() - needle.len() && #[trigger] text.subrange(
            at,
            at + needle.len(),
        ) == needle
}

/// Whether `needle` stands at `at` in `text`.
fn stands_at(text: &str, text_len: usize, needle: &str, needle_len: usize, at: usize) -> (yes:
    bool)
    requires
        text_len == text@.len(),
        needle_len == needle@.len(),
        at + needle_len <= text_len,
    ensures
        yes == (text@.subrange(at as int, at + needle_len) == needle@),
{
    let mut i: usize = 0;
    while i < needle_len
        invariant
            text_len == text@.len(),
            needle_len == needle@.len(),
            at + needle_len <= text_len,
            i <= needle_len,
            forall|k: int| 0 <= k < i ==> text@[at + k] == needle@[k],
        decreases needle_len - i,
    {
        if text.get_char(at + i) != needle.get_char(i) {
            assert(text@.subrange(at as int, at + needle_len)[i as int] != needle@[i as int]);
            return false;
        }
        i = i + 1;
    }
    assert(text@.subrange(at as int, at + needle_len) =~= needle@);
    true
}

/// `needle` stands at `at` in `text`, and nowhere before.
pub open spec fn first_at(text: Seq<char>, needle: Seq<char>, at: int) -> bool {
    &&& 0 <= at <= text.len() - needle.len()
    &&& text.subrange(at, at + needle.len()) == needle
    &&& forall|k: int| 0 <= k < at ==> #[trigger] text.subrange(k, k + needle.len()) != needle
}

/// Where `needle` stands first in `text`, counted in characters from
/// `from` on, or nothing where it does not stand there at all.
pub fn find_text(text: &str, needle: &str, from: usize) -> (found: Option<usize>)
    requires
        from <= text@.len(),
    ensures
        found matches Some(at) ==> from <= at && first_at(
            text@.subrange(from as int, text@.len() as int),
            needle@,
            at - from,
        ),
        found is None ==> !contains_spec(text@.subrange(from as int, text@.len() as int), needle@),
{
    let n: usize = text.unicode_len();
    let m: usize = needle.unicode_len();
    let ghost rest = text@.subrange(from as int, n as int);
    if m > n - from {
        return None;
    }
    if m == 0 {
        assert(rest.subrange(0int, 0int + needle@.len()) =~= needle@);
        return Some(from);
    }
    let last: usize = n - m;
    let mut at: usize = from;
    while at <= last
        invariant
            n == text@.len(),
            m == needle@.len(),
            rest == text@.subrange(from as int, n as int),
            1 <= m <= n - from,
            last == n - m,
            from <= at <= last + 1,
            forall|k: int| 0 <= k < at - from ==> #[trigger] rest.subrange(k, k + m) != needle@,
        decreases last + 1 - at,
    {
        assert(rest.subrange(at - from, at - from + m) =~= text@.subrange(at as int, at + m));
        if stands_at(text, n, needle, m, at) {
            return Some(at);
        }
        at = at + 1;
    }
    None
}

/// Whether `needle` stands somewhere in `text`.
pub fn contains_text(text: &str, needle: &str) -> (yes: bool)
    ensures
        yes == contains_spec(text@, needle@),
{
    assert(text@.subrange(0, text@.len() as int) =~= text@);
    match find_text(text, needle, 0) {
        Some(_) => true,
        None => false,
    }
}

/// Where the run of set flags that holds `i` ends; `i` itself where the
/// flag at `i` is not set.
pub open spec fn run_end(flags: Seq<bool>, i: int) -> int
    decreases flags.len() - i,
{
    if 0 <= i < flags.len() && flags[i] {
        run_end(flags, i + 1)
    } else {
        i
    }
}

/// The longest runs of set flags from `start` on, each as the index of its
/// first flag and the index behind its last.
pub open spec fn spans_from(flags: Seq<bool>, start: int) -> Seq<(int, int)>
    decreases flags.len() - start,
{
    if start < 0 || start >= flags.len() {
        Seq::empty()
    } else if !flags[start] {
        spans_from(flags, start + 1)
    } else {
        proof {
            lemma_run_end(flags, start);
        }
        seq![(start, run_end(flags, start))] + spans_from(flags, run_end(flags, start))
    }
}

/// A run ends behind its start and inside the flags, every flag in it is
/// set, and the flag behind it, if there is one, is not.
pub proof fn lemma_run_end(flags: Seq<bool>, i: int)
    requires
        0 <= i < flags.len(),
        flags[i],
    ensures
        i < run_end(flags, i) <= flags.len(),
        forall|k: int| i <= k < run_end(flags, i) ==> #[trigger] flags[k],
        run_end(flags, i) < flags.len() ==> !flags[run_end(flags, i)],
    decreases flags.len() - i,
{
    assert(run_end(flags, i) == run_end(flags, i + 1));
    if i + 1 < flags.len() && flags[i + 1] {
        lemma_run_end(flags, i + 1);
    } else {
        assert(run_end(flags, i + 1) == i + 1);
    }
}

/// The spans as plain integers.
pub open spec fn spans_of(spans: Seq<(usize, usize)>) -> Seq<(int, int)> {
    Seq::new(spans.len(), |k: int| (spans[k].0 as int, spans[k].1 as int))
}

/// Finds the longest runs of set flags.
pub fn word_spans(flags: &[bool]) -> (spans: Vec<(usize, usize)>)
    ensures
        spans_of(spans@) == spans_from(flags@, 0),
        forall|k: int|
            0 <= k < spans@.len() ==> (#[trigger] spans@[k]).0 < spans@[k].1 <= flags@.len(),
{
    let n: usize = flags.len();
    let mut spans: Vec<(usize, usize)> = Vec::new();
    let mut i: usize = 0;
    assert(spans_of(spans@) + spans_from(flags@, 0) =~= spans_from(flags@, 0));
    while i < n
        invariant
            n == flags@.len(),
            i <= n,
            spans_of(spans@) + spans_from(flags@, i as int) == spans_from(flags@, 0),
            forall|k: int|
                0 <= k < spans@.len() ==> (#[trigger] spans@[k]).0 < spans@[k].1 <= flags@.len(),
        decreases n - i,
    {
        if !flags[i] {
            i = i + 1;
        } else {
            let start: usize = i;
            let ghost sofar = spans_of(spans@);
            proof {
                lemma_run_end(flags@, start as int);
            }
            while i < n && flags[i]
                invariant
                    n == flags@.len(),
                    start <= i <= n,
                    start < n,
                    flags@[start as int],
                    run_end(flags@, i as int) == run_end(flags@, start as int),
                    i > start || flags@[i as int],
                decreases n - i,
            {
                i = i + 1;
            }
            assert(i == run_end(flags@, start as int));
            spans.push((start, i));
            assert(spans_of(spans@) =~= sofar.push((start as int, i as int)));
            assert(sofar.push((start as int, i as int)) + spans_from(flags@, i as int) =~= sofar
                + spans_from(flags@, start as int));
        }
    }
    assert(spans_of(spans@) + spans_from(flags@, n as int) =~= spans_of(spans@));
    spans
}

/// The character is white space: a tab, a line feed, a vertical tab, a form
/// feed, a carriage return, a space, a next line, a no-break space, or one
/// of the Unicode spaces and separators.
pub open spec fn is_whitespace_spec(c: char) -> bool {
    let v = c as u32;
    (0x09 <= v && v <= 0x0D) || v == 0x20 || v == 0x85 || v == 0xA0 || v == 0x1680 || (0x2000 <= v
        && v <= 0x200A) || v == 0x2028 || v == 0x2029 || v == 0x202F || v == 0x205F || v == 0x3000
}

/// Whether a character is white space.
pub fn is_whitespace(c: char) -> (yes: bool)
    ensures
        yes == is_whitespace_spec(c),
{
    let v: u32 = c as u32;
    (0x09 <= v && v <= 0x0D) || v == 0x20 || v == 0x85 || v == 0xA0 || v == 0x1680 || (0x2000 <= v
        && v <= 0x200A) || v == 0x2028 || v == 0x2029 || v == 0x202F || v == 0x205F || v == 0x3000
}

/// Which characters of a text are no white space.
pub open spec fn inked(text: Seq<char>) -> Seq<bool> {
    Seq::new(text.len(), |i: int| !is_whitespace_spec(text[i]))
}

/// The words of a text: its longest runs without white space, each as the
/// index of its first character and the index behind its last.
pub open spec fn words_spec(text: Seq<char>) -> Seq<(int, int)> {
    spans_from(inked(text), 0)
}

/// Where the words of a text stand.
pub fn split_words(text: &str) -> (words: Vec<(usize, usize)>)
    ensures
        spans_of(words@) == words_spec(text@),
        forall|k: int|
            0 <= k < words@.len() ==> (#[trigger] words@[k]).0 < words@[k].1 <= text@.len(),
{
    let n: usize = text.unicode_len();
    let mut flags: Vec<bool> = Vec::with_capacity(n);
    let mut i: usize = 0;
    while i < n
        invariant
            n == text@.len(),
            i <= n,
            flags@.len() == i,
            forall|k: int| 0 <= k < i ==> flags@[k] == !is_whitespace_spec(text@[k]),
        decreases n - i,
    {
        flags.push(!is_whitespace(text.get_char(i)));
        i = i + 1;
    }
    assert(flags@ =~= inked(text@));
    word_spans(flags.as_slice())
}

/// The value of a run of decimal digits, or -1 where a character is no
/// digit.
pub open spec fn digits_value(digits: Seq<char>) -> int
    decreases digits.len(),
{
    if digits.len() == 0 {
        0
    } else {
        let d = digits.last() as u32 - 0x30;
        let before = digits_value(digits.drop_last());
        if before < 0 || digits.last() < '0' || digits.last() > '9' {
            -1
        } else {
            before * 10 + d
        }
    }
}

/// The number that a text writes down: decimal digits, with a plus sign
/// before them or without, that make a number of 64 bits. Anything else is
/// no number.
pub open spec fn number_spec(text: Seq<char>) -> Option<u64> {
    let digits = if text.len() > 0 && text[0] == '+' {
        text.drop_first()
    } else {
        text
    };
    if digits.len() == 0 || digits_value(digits) < 0 || digits_value(digits) > u64::MAX {
        None
    } else {
        Some(digits_value(digits) as u64)
    }
}

/// A run of digits is worth at least what any of its beginnings is worth.
pub proof fn lemma_digits_grow(digits: Seq<char>, k: int)
    requires
        0 <= k <= digits.len(),
        digits_value(digits) >= 0,
    ensures
        0 <= digits_value(digits.subrange(0, k)) <= digits_value(digits),
    decreases digits.len() - k,
{
    if k == digits.len() {
        assert(digits.subrange(0, k) =~= digits);
    } else {
        lemma_digits_grow(digits, k + 1);
        let longer = digits.subrange(0, k + 1);
        assert(longer.drop_last() =~= digits.subrange(0, k));
    }
}

/// A run with a character that is no digit in it is worth nothing, however
/// it goes on.
pub proof fn lemma_digits_spoiled(digits: Seq<char>, k: int)
    requires
        0 <= k <= digits.len(),
        digits_value(digits.subrange(0, k)) < 0,
    ensures
        digits_value(digits) < 0,
    decreases digits.len() - k,
{
    if k == digits.len() {
        assert(digits.subrange(0, k) =~= digits);
    } else {
        let longer = digits.subrange(0, k + 1);
        assert(longer.drop_last() =~= digits.subrange(0, k));
        lemma_digits_spoiled(digits, k + 1);
    }
}

/// Reads a number.
pub fn parse_number(text: &str) -> (number: Option<u64>)
    ensures
        number == number_spec(text@),
{
    let n: usize = text.unicode_len();
    let start: usize = if n > 0 && text.get_char(0) == '+' {
        1
    } else {
        0
    };
    let ghost digits = text@.subrange(start as int, n as int);
    assert(start == 1 ==> digits =~= text@.drop_first());
    assert(start == 0 ==> digits =~= text@);
    if start == n {
        return None;
    }
    let mut value: u64 = 0;
    let mut i: usize = start;
    assert(digits.subrange(0, 0) =~= Seq::<char>::empty());
    while i < n
        invariant
            n == text@.len(),
            start <= i <= n,
            digits == text@.subrange(start as int, n as int),
            digits == (if text@.len() > 0 && text@[0] == '+' {
                text@.drop_first()
            } else {
                text@
            }),
            digits.len() > 0,
            value == digits_value(digits.subrange(0, i - start)),
        decreases n - i,
    {
        let c: char = text.get_char(i);
        let ghost sofar = digits.subrange(0, i - start);
        let ghost next = digits.subrange(0, i - start + 1);
        assert(next.drop_last() =~= sofar);
        assert(next.last() == c);
        if c < '0' || c > '9' {
            proof {
                assert(digits_value(next) == -1);
                lemma_digits_spoiled(digits, i - start + 1);
            }
            return None;
        }
        let d: u64 = (c as u32 - 0x30) as u64;
        assert(digits_value(next) == value * 10 + d);
        if value > (u64::MAX - d) / 10 {
            proof {
                assert(value * 10 + d > u64::MAX);
                if digits_value(digits) >= 0 {
                    lemma_digits_grow(digits, i - start + 1);
                }
            }
            return None;
        }
        value = value * 10 + d;
        i = i + 1;
    }
    assert(digits.subrange(0, n - start) =~= digits);
    Some(value)
}

/// The character is a control code: one of the first 32 code points, or
/// one from U+007F to U+009F.
pub open spec fn is_control_spec(c: char) -> bool {
    c <= '\u{1f}' || ('\u{7f}' <= c && c <= '\u{9f}')
}

/// Whether a character is a control code.
pub fn is_control(c: char) -> (yes: bool)
    ensures
        yes == is_control_spec(c),
{
    c <= '\u{1f}' || ('\u{7f}' <= c && c <= '\u{9f}')
}

} // verus!
