//! Whitespace-delimited fields of a text.
//!
//! The kernel's pseudo-files are lines of fields separated by white space.
//! This module says what the fields of a text are and finds one of them by
//! its position.

use vstd::prelude::*;

verus! {

/// Whether `c` separates fields: the characters that Unicode gives the
/// property `White_Space`.
pub open spec fn is_whitespace(c: char) -> bool {
    ||| '\u{9}' <= c <= '\u{d}'
    ||| c == ' '
    ||| c == '\u{85}'
    ||| c == '\u{a0}'
    ||| c == '\u{1680}'
    ||| '\u{2000}' <= c <= '\u{200a}'
    ||| c == '\u{2028}'
    ||| c == '\u{2029}'
    ||| c == '\u{202f}'
    ||| c == '\u{205f}'
    ||| c == '\u{3000}'
}

/// Whether `w` is a word: a non-empty run of characters other than white
/// space.
pub open spec fn is_word(w: Seq<char>) -> bool {
    &&& w.len() > 0
    &&& forall|i: int| 0 <= i < w.len() ==> !is_whitespace(#[trigger] w[i])
}

/// The length of the longest prefix of `s` that holds no white space.
pub open spec fn word_len(s: Seq<char>) -> nat
    decreases s.len(),
{
    if s.len() > 0 && !is_whitespace(s[0]) {
        1 + word_len(s.drop_first())
    } else {
        0
    }
}

/// The fields of `s`: its maximal runs of characters other than white
/// space, from left to right.
pub open spec fn fields(s: Seq<char>) -> Seq<Seq<char>>
    decreases s.len(),
{
    if s.len() == 0 {
        Seq::empty()
    } else if is_whitespace(s[0]) {
        fields(s.drop_first())
    } else {
        proof {
            lemma_word_len_bounds(s);
        }
        seq![s.take(word_len(s) as int)] + fields(s.skip(word_len(s) as int))
    }
}

/// The field of `s` at position `index`, counted from zero, if `s` has that
/// many fields.
pub open spec fn field(s: Seq<char>, index: nat) -> Option<Seq<char>> {
    if index < fields(s).len() {
        Some(fields(s)[index as int])
    } else {
        None
    }
}

/// The bytes of `bytes` read as characters, each byte as the character
/// with its number. Bytes that are ASCII stand for themselves.
pub open spec fn bytes_as_chars(bytes: Seq<u8>) -> Seq<char> {
    Seq::new(bytes.len(), |i: int| bytes[i] as char)
}

/// `s` without the line ending at its end: without a final line feed, and
/// without a carriage return that stands before that line feed.
pub open spec fn strip_line_ending(s: Seq<char>) -> Seq<char> {
    if s.len() > 0 && s.last() == '\n' {
        let line = s.drop_last();
        if line.len() > 0 && line.last() == '\r' {
            line.drop_last()
        } else {
            line
        }
    } else {
        s
    }
}

/// A word is no longer than the text it starts, and is not empty where the
/// text starts with a character other than white space.
pub proof fn lemma_word_len_bounds(s: Seq<char>)
    ensures
        word_len(s) <= s.len(),
        s.len() > 0 && !is_whitespace(s[0]) ==> word_len(s) >= 1,
    decreases s.len(),
{
    if s.len() > 0 && !is_whitespace(s[0]) {
        lemma_word_len_bounds(s.drop_first());
    }
}

/// The first `word_len(s)` characters of `s` are no white space, and the
/// one after them, if there is one, is.
pub proof fn lemma_word_len_is_first_whitespace(s: Seq<char>)
    ensures
        word_len(s) <= s.len(),
        forall|i: int| 0 <= i < word_len(s) ==> !is_whitespace(#[trigger] s[i]),
        word_len(s) < s.len() ==> is_whitespace(s[word_len(s) as int]),
    decreases s.len(),
{
    if s.len() > 0 && !is_whitespace(s[0]) {
        let rest = s.drop_first();
        lemma_word_len_is_first_whitespace(rest);
        assert forall|i: int| 0 <= i < word_len(s) implies !is_whitespace(#[trigger] s[i]) by {
            if i > 0 {
                assert(s[i] == rest[i - 1]);
            }
        }
        if word_len(s) < s.len() {
            assert(s[word_len(s) as int] == rest[word_len(rest) as int]);
        }
    }
}

/// A run of `n` characters other than white space that ends the text or is
/// followed by white space is the word at the start of the text.
pub proof fn lemma_word_len_unique(s: Seq<char>, n: nat)
    requires
        n <= s.len(),
        forall|i: int| 0 <= i < n ==> !is_whitespace(#[trigger] s[i]),
        n < s.len() ==> is_whitespace(s[n as int]),
    ensures
        word_len(s) == n,
    decreases n,
{
    if n > 0 {
        let rest = s.drop_first();
        assert forall|i: int| 0 <= i < n - 1 implies !is_whitespace(#[trigger] rest[i]) by {
            assert(rest[i] == s[i + 1]);
        }
        lemma_word_len_unique(rest, (n - 1) as nat);
    }
}

/// Every field is a word.
pub proof fn lemma_fields_are_words(s: Seq<char>)
    ensures
        forall|k: int| 0 <= k < fields(s).len() ==> is_word(#[trigger] fields(s)[k]),
    decreases s.len(),
{
    if s.len() == 0 {
    } else if is_whitespace(s[0]) {
        lemma_fields_are_words(s.drop_first());
        assert(fields(s) == fields(s.drop_first()));
    } else {
        let n = word_len(s) as int;
        lemma_word_len_is_first_whitespace(s);
        lemma_fields_are_words(s.skip(n));
        let rest = fields(s.skip(n));
        assert forall|k: int| 0 <= k < fields(s).len() implies is_word(#[trigger] fields(s)[k]) by {
            if k == 0 {
                assert(fields(s)[0] == s.take(n));
            } else {
                assert(fields(s)[k] == rest[k - 1]);
            }
        }
    }
}

/// White space in front of a text adds no field.
pub proof fn lemma_fields_skip_whitespace(s: Seq<char>, n: nat)
    requires
        n <= s.len(),
        forall|i: int| 0 <= i < n ==> is_whitespace(#[trigger] s[i]),
    ensures
        fields(s) == fields(s.skip(n as int)),
    decreases n,
{
    if n == 0 {
        assert(s.skip(0) == s);
    } else {
        let rest = s.drop_first();
        assert forall|i: int| 0 <= i < n - 1 implies is_whitespace(#[trigger] rest[i]) by {
            assert(rest[i] == s[i + 1]);
        }
        lemma_fields_skip_whitespace(rest, (n - 1) as nat);
        assert(rest.skip(n - 1) == s.skip(n as int));
    }
}

/// A text that starts with a word followed by white space or by nothing
/// has that word as its first field, and the fields of what follows as the
/// others.
pub proof fn lemma_fields_first_word(s: Seq<char>, n: nat)
    requires
        0 < n <= s.len(),
        forall|i: int| 0 <= i < n ==> !is_whitespace(#[trigger] s[i]),
        n < s.len() ==> is_whitespace(s[n as int]),
    ensures
        fields(s) == seq![s.take(n as int)] + fields(s.skip(n as int)),
        field(s, 0) == Some(s.take(n as int)),
{
    lemma_word_len_unique(s, n);
}

/// Tells whether `c` separates fields.
pub fn is_separator(c: char) -> (yes: bool)
    ensures
        yes == is_whitespace(c),
{
    ('\u{9}' <= c && c <= '\u{d}') || c == ' ' || c == '\u{85}' || c == '\u{a0}' || c
        == '\u{1680}' || ('\u{2000}' <= c && c <= '\u{200a}') || c == '\u{2028}' || c
        == '\u{2029}' || c == '\u{202f}' || c == '\u{205f}' || c == '\u{3000}'
}

/// The characters of `s`, in order.
#[verifier::loop_isolation(false)]
pub fn chars_of(s: &str) -> (chars: Vec<char>)
    ensures
        chars@ == s@,
{
    let mut chars: Vec<char> = Vec::new();
    let it0 = s.chars();
    for c in it: it0
        invariant
            chars@ == s@.take(it.index@),
    {
        chars.push(c);
    }
    chars
}

/// Reads each byte of `bytes` as the character with its number.
pub fn chars_of_bytes(bytes: &[u8]) -> (chars: Vec<char>)
    ensures
        chars@ == bytes_as_chars(bytes@),
{
    let mut chars: Vec<char> = Vec::new();
    let mut i: usize = 0;
    while i < bytes.len()
        invariant
            i <= bytes@.len(),
            chars@ == bytes_as_chars(bytes@.take(i as int)),
        decreases bytes@.len() - i,
    {
        chars.push(bytes[i] as char);
        i += 1;
        proof {
            assert(bytes_as_chars(bytes@.take(i as int)) == bytes_as_chars(
                bytes@.take(i - 1),
            ).push(bytes@[i - 1] as char));
        }
    }
    chars
}

/// Finds where `text` ends once its line ending is taken off.
pub fn line_end(text: &[char]) -> (end: usize)
    ensures
        end <= text@.len(),
        text@.take(end as int) == strip_line_ending(text@),
{
    let len = text.len();
    if len > 0 && text[len - 1] == '\n' {
        if len > 1 && text[len - 2] == '\r' {
            len - 2
        } else {
            len - 1
        }
    } else {
        len
    }
}

/// Finds the field of `text` at position `index`, counted from zero.
///
/// Returns the positions at which the field starts and ends in `text`, or
/// `None` where `text` has no more than `index` fields.
pub fn find_field(text: &[char], index: usize) -> (found: Option<(usize, usize)>)
    ensures
        match found {
            Some((start, end)) => {
                &&& start < end <= text@.len()
                &&& field(text@, index as nat) == Some(text@.subrange(start as int, end as int))
            },
            None => field(text@, index as nat) is None,
        },
{
    let len = text.len();
    let mut pos: usize = 0;
    let mut passed: usize = 0;
    let ghost mut before: Seq<Seq<char>> = Seq::empty();
    proof {
        assert(text@.skip(0) == text@);
    }
    loop
        invariant
            len == text@.len(),
            pos <= len,
            passed <= index,
            before.len() == passed,
            fields(text@) == before + fields(text@.skip(pos as int)),
        decreases len - pos,
    {
        let ghost from = pos;
        while pos < len && is_separator(text[pos])
            invariant
                len == text@.len(),
                from <= pos <= len,
                forall|i: int| from <= i < pos ==> is_whitespace(#[trigger] text@[i]),
            decreases len - pos,
        {
            pos += 1;
        }
        proof {
            let tail = text@.skip(from as int);
            assert forall|i: int| 0 <= i < pos - from implies is_whitespace(#[trigger] tail[i]) by {
                assert(tail[i] == text@[from + i]);
            }
            lemma_fields_skip_whitespace(tail, (pos - from) as nat);
            assert(tail.skip(pos - from) == text@.skip(pos as int));
        }
        if pos >= len {
            return None;
        }
        let start = pos;
        while pos < len && !is_separator(text[pos])
            invariant
                len == text@.len(),
                start <= pos <= len,
                forall|i: int| start <= i < pos ==> !is_whitespace(#[trigger] text@[i]),
            decreases len - pos,
        {
            pos += 1;
        }
        proof {
            let tail = text@.skip(start as int);
            assert forall|i: int| 0 <= i < pos - start implies !is_whitespace(#[trigger] tail[i]) by {
                assert(tail[i] == text@[start + i]);
            }
            if pos < len {
                assert(tail[pos - start] == text@[pos as int]);
            }
            lemma_fields_first_word(tail, (pos - start) as nat);
            assert(tail.take(pos - start) == text@.subrange(start as int, pos as int));
            assert(tail.skip(pos - start) == text@.skip(pos as int));
            assert(fields(text@) == before.push(text@.subrange(start as int, pos as int)) + fields(
                text@.skip(pos as int),
            ));
        }
        if passed == index {
            return Some((start, pos));
        }
        passed += 1;
        proof {
            before = before.push(text@.subrange(start as int, pos as int));
        }
    }
}

} // verus!
