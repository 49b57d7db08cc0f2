//! Text handling: characters of a string, replacement of substrings, lines,
//! and the decoding of the text that a request carries.

use crate::color::hex_digit;
use crate::error::EmogenError;
use vstd::prelude::*;
use vstd::string::StringExecFns;
use vstd::utf8::{decode_utf8, encode_utf8, valid_utf8};

verus! {

/// `String::push` appends one character.
pub assume_specification[ String::push ](s: &mut String, ch: char)
    ensures
        final(s)@ == old(s)@.push(ch),
;

/// The error of `String::from_utf8`, carried through unread.
#[verifier::external_type_specification]
#[verifier::external_body]
pub struct ExFromUtf8Error(std::string::FromUtf8Error);

/// What an optional string holds.
pub open spec fn optional_view(s: Option<String>) -> Option<Seq<char>> {
    match s {
        Some(t) => Some(t@),
        None => None,
    }
}

/// The characters of a string, in order.
pub fn to_chars(text: &str) -> (chars: Vec<char>)
    ensures
        chars@ == text@,
{
    let mut chars: Vec<char> = Vec::new();
    let it = text.chars();
    for c in iter: it
        invariant
            chars@ == iter.seq().take(iter.index() as int),
    {
        chars.push(c);
    }
    chars
}

/// `text` with every match of `from` replaced by `to`. Matches are found from
/// the left and do not overlap. An empty `from` matches before every
/// character and at the end.
pub open spec fn replaced(text: Seq<char>, from: Seq<char>, to: Seq<char>) -> Seq<char>
    decreases text.len(),
{
    if from.len() == 0 {
        if text.len() == 0 {
            to
        } else {
            to + seq![text[0]] + replaced(text.skip(1), from, to)
        }
    } else if text.len() < from.len() {
        text
    } else if text.take(from.len() as int) == from {
        to + replaced(text.skip(from.len() as int), from, to)
    } else {
        seq![text[0]] + replaced(text.skip(1), from, to)
    }
}

fn matches_at(text: &Vec<char>, at: usize, pattern: &Vec<char>) -> (r: bool)
    requires
        at + pattern.len() <= text.len(),
    ensures
        r == (text@.skip(at as int).take(pattern.len() as int) == pattern@),
{
    let mut j: usize = 0;
    while j < pattern.len()
        invariant
            j <= pattern.len(),
            at + pattern.len() <= text.len(),
            forall|k: int| 0 <= k < j ==> text@[at + k] == pattern@[k],
        decreases pattern.len() - j,
    {
        if text[at + j] != pattern[j] {
            let ghost window = text@.skip(at as int).take(pattern.len() as int);
            assert(window[j as int] != pattern@[j as int]);
            return false;
        }
        j += 1;
    }
    assert(text@.skip(at as int).take(pattern.len() as int) =~= pattern@);
    true
}

/// Replaces every match of `from` in `text` by `to`.
pub fn replace(text: &str, from: &str, to: &str) -> (r: String)
    ensures
        r@ == replaced(text@, from@, to@),
{
    let s = to_chars(text);
    let f = to_chars(from);
    let mut out = String::new();
    let mut i: usize = 0;
    assert(s@.skip(0) =~= s@);
    assert(out@ + replaced(s@, f@, to@) =~= replaced(s@, f@, to@));
    while i < s.len()
        invariant
            i <= s.len(),
            f@ == from@,
            out@ + replaced(s@.skip(i as int), f@, to@) == replaced(s@, f@, to@),
        decreases s.len() - i,
    {
        let ghost rest = s@.skip(i as int);
        if f.len() == 0 {
            assert(rest.skip(1) =~= s@.skip(i + 1));
            let ghost tail = replaced(rest.skip(1), f@, to@);
            assert(out@ + (to@ + seq![rest[0]] + tail) =~= (out@ + to@).push(s@[i as int]) + tail);
            out.append(to);
            out.push(s[i]);
            i += 1;
        } else if s.len() - i >= f.len() && matches_at(&s, i, &f) {
            assert(rest.skip(f.len() as int) =~= s@.skip(i + f.len()));
            let ghost tail = replaced(rest.skip(f.len() as int), f@, to@);
            assert(out@ + (to@ + tail) =~= (out@ + to@) + tail);
            out.append(to);
            i += f.len();
        } else {
            assert(rest.skip(1) =~= s@.skip(i + 1));
            let ghost tail = replaced(rest.skip(1), f@, to@);
            assert(replaced(rest, f@, to@) == seq![rest[0]] + tail) by {
                if rest.len() < f.len() {
                    assert(seq![rest[0]] + rest.skip(1) =~= rest);
                }
            }
            assert(out@ + (seq![rest[0]] + tail) =~= out@.push(s@[i as int]) + tail);
            out.push(s[i]);
            i += 1;
        }
    }
    assert(s@.skip(i as int).len() == 0);
    if f.len() == 0 {
        out.append(to);
    } else {
        assert(out@ + replaced(s@.skip(i as int), f@, to@) =~= out@);
    }
    out
}

/// The lines of a text: the pieces between its newline characters. A text
/// without a newline is one line, and so is the empty text.
pub open spec fn lines_of(text: Seq<char>) -> Seq<Seq<char>>
    decreases text.len(),
{
    if text.len() == 0 {
        seq![Seq::empty()]
    } else {
        let before = lines_of(text.drop_last());
        if text.last() == '\n' {
            before.push(Seq::empty())
        } else {
            before.drop_last().push(before.last().push(text.last()))
        }
    }
}

/// Lines put together again, with one newline between neighbours.
pub open spec fn joined(lines: Seq<Seq<char>>) -> Seq<char>
    decreases lines.len(),
{
    if lines.len() == 0 {
        Seq::empty()
    } else if lines.len() == 1 {
        lines[0]
    } else {
        joined(lines.drop_last()) + seq!['\n'] + lines.last()
    }
}

/// The number of newline characters in a text.
pub open spec fn newline_count(text: Seq<char>) -> nat
    decreases text.len(),
{
    if text.len() == 0 {
        0
    } else if text.last() == '\n' {
        newline_count(text.drop_last()) + 1
    } else {
        newline_count(text.drop_last())
    }
}

/// What each string of a sequence holds.
pub open spec fn views(strings: Seq<String>) -> Seq<Seq<char>> {
    Seq::new(strings.len(), |i: int| strings[i]@)
}

/// Every text has one line more than it has newlines: at least one.
pub proof fn lemma_line_count(text: Seq<char>)
    ensures
        lines_of(text).len() == newline_count(text) + 1,
        lines_of(text).len() >= 1,
    decreases text.len(),
{
    if text.len() > 0 {
        lemma_line_count(text.drop_last());
    }
}

/// No line holds a newline.
pub proof fn lemma_lines_hold_no_newline(text: Seq<char>, i: int)
    requires
        0 <= i < lines_of(text).len(),
    ensures
        !lines_of(text)[i].contains('\n'),
    decreases text.len(),
{
    if text.len() > 0 {
        let before = lines_of(text.drop_last());
        lemma_line_count(text.drop_last());
        if i < before.len() - 1 {
            lemma_lines_hold_no_newline(text.drop_last(), i);
        } else if text.last() != '\n' {
            lemma_lines_hold_no_newline(text.drop_last(), before.len() - 1);
            let line = before.last().push(text.last());
            assert forall|k: int| 0 <= k < line.len() implies line[k] != '\n' by {
                if k < before.last().len() {
                    assert(before.last().contains(before.last()[k]));
                }
            }
        } else if i < before.len() {
            lemma_lines_hold_no_newline(text.drop_last(), i);
        }
    }
}

/// Splitting loses nothing: the lines of a text, joined, are the text.
pub proof fn lemma_lines_join(text: Seq<char>)
    ensures
        joined(lines_of(text)) == text,
    decreases text.len(),
{
    if text.len() == 0 {
        assert(joined(lines_of(text)) =~= text);
    } else {
        let before = lines_of(text.drop_last());
        let lines = lines_of(text);
        lemma_line_count(text.drop_last());
        lemma_lines_join(text.drop_last());
        if text.last() == '\n' {
            assert(lines.drop_last() =~= before);
            assert(joined(lines) =~= text.drop_last().push(text.last()));
        } else if before.len() == 1 {
            assert(joined(lines) =~= text.drop_last().push(text.last()));
        } else {
            assert(lines.drop_last() =~= before.drop_last());
            assert(joined(lines) =~= joined(before).push(text.last()));
        }
        assert(text.drop_last().push(text.last()) =~= text);
    }
}

/// Splits a text into its lines.
pub fn split_lines(text: &str) -> (lines: Vec<String>)
    ensures
        views(lines@) == lines_of(text@),
        lines@.len() >= 1,
{
    let s = to_chars(text);
    let mut lines: Vec<String> = Vec::new();
    let mut current = String::new();
    let mut i: usize = 0;
    assert(views(lines@).push(current@) =~= lines_of(s@.take(0)));
    while i < s.len()
        invariant
            i <= s.len(),
            views(lines@).push(current@) == lines_of(s@.take(i as int)),
        decreases s.len() - i,
    {
        let ghost done = s@.take(i as int);
        let ghost next = s@.take(i + 1);
        assert(next.drop_last() =~= done);
        if s[i] == '\n' {
            lines.push(current);
            current = String::new();
        } else {
            current.push(s[i]);
        }
        assert(views(lines@).push(current@) =~= lines_of(next));
        i += 1;
    }
    assert(s@.take(i as int) =~= s@);
    lines.push(current);
    assert(views(lines@) =~= lines_of(s@));
    lines
}

/// A text without its newline characters.
pub open spec fn without_newlines(text: Seq<char>) -> Seq<char> {
    text.filter(|c: char| c != '\n')
}

/// What is left of a text without its newlines holds no newline, and a text
/// that holds none is left as it is.
pub proof fn lemma_without_newlines(text: Seq<char>)
    ensures
        !without_newlines(text).contains('\n'),
        !text.contains('\n') ==> without_newlines(text) == text,
    decreases text.len(),
{
    reveal(Seq::filter);
    let kept = without_newlines(text);
    if text.len() > 0 {
        let before = text.drop_last();
        lemma_without_newlines(before);
        assert forall|i: int| 0 <= i < kept.len() implies kept[i] != '\n' by {
            if i < without_newlines(before).len() {
                assert(without_newlines(before).contains(without_newlines(before)[i]));
            }
        }
        if !text.contains('\n') {
            assert forall|c: char| before.contains(c) implies text.contains(c) by {
                let i = choose|i: int| 0 <= i < before.len() && before[i] == c;
                assert(text[i] == c);
            }
            assert(text.contains(text.last()));
            assert(before.push(text.last()) =~= text);
        }
    }
}

/// Removes the newline characters of a text.
pub fn strip_newlines(text: &str) -> (r: String)
    ensures
        r@ == without_newlines(text@),
{
    let s = to_chars(text);
    let mut out = String::new();
    let mut i: usize = 0;
    proof {
        reveal(Seq::filter);
    }
    assert(out@ =~= without_newlines(s@.take(0)));
    while i < s.len()
        invariant
            i <= s.len(),
            out@ == without_newlines(s@.take(i as int)),
        decreases s.len() - i,
    {
        proof {
            reveal(Seq::filter);
        }
        assert(s@.take(i + 1).drop_last() =~= s@.take(i as int));
        if s[i] != '\n' {
            out.push(s[i]);
        }
        i += 1;
    }
    assert(s@.take(i as int) =~= s@);
    out
}

/// The value of a byte that is a hexadecimal digit in ASCII.
pub open spec fn hex_value(byte: u8) -> Option<u8> {
    hex_digit(byte as char)
}

/// Whether the bytes begin with a percent sign and two hexadecimal digits.
pub open spec fn starts_with_escape(bytes: Seq<u8>) -> bool {
    &&& bytes.len() >= 3
    &&& bytes[0] == 0x25
    &&& hex_value(bytes[1]) is Some
    &&& hex_value(bytes[2]) is Some
}

/// Percent-decoding of bytes: each percent sign that two hexadecimal digits
/// follow stands, with them, for the byte that the digits spell. Every other
/// byte stands for itself, a percent sign without two digits too.
pub open spec fn percent_decoded(bytes: Seq<u8>) -> Seq<u8>
    decreases bytes.len(),
{
    if bytes.len() == 0 {
        bytes
    } else if starts_with_escape(bytes) {
        seq![(16 * hex_value(bytes[1])->0 + hex_value(bytes[2])->0) as u8] + percent_decoded(
            bytes.skip(3),
        )
    } else {
        seq![bytes[0]] + percent_decoded(bytes.skip(1))
    }
}

/// Decoding never makes bytes longer.
pub proof fn lemma_decoding_does_not_grow(bytes: Seq<u8>)
    ensures
        percent_decoded(bytes).len() <= bytes.len(),
    decreases bytes.len(),
{
    if bytes.len() > 0 {
        if starts_with_escape(bytes) {
            lemma_decoding_does_not_grow(bytes.skip(3));
        } else {
            lemma_decoding_does_not_grow(bytes.skip(1));
        }
    }
}

/// Bytes without a percent sign decode to themselves.
pub proof fn lemma_plain_bytes_stay(bytes: Seq<u8>)
    requires
        !bytes.contains(0x25),
    ensures
        percent_decoded(bytes) == bytes,
    decreases bytes.len(),
{
    if bytes.len() > 0 {
        assert(bytes.contains(bytes[0]));
        assert forall|b: u8| bytes.skip(1).contains(b) implies bytes.contains(b) by {
            let i = choose|i: int| 0 <= i < bytes.skip(1).len() && bytes.skip(1)[i] == b;
            assert(bytes[i + 1] == b);
        }
        lemma_plain_bytes_stay(bytes.skip(1));
        assert(seq![bytes[0]] + bytes.skip(1) =~= bytes);
    }
}

/// Calls `urlencoding::decode`. It percent-decodes the bytes of the string,
/// then returns them as a string if they are UTF-8, and the error of
/// `String::from_utf8` if they are not.
#[verifier::external_body]
fn percent_decode(text: &str) -> (r: Result<String, std::string::FromUtf8Error>)
    ensures
        r is Ok <==> valid_utf8(percent_decoded(encode_utf8(text@))),
        r matches Ok(s) ==> s@ == decode_utf8(percent_decoded(encode_utf8(text@))),
{
    match urlencoding::decode(text) {
        Ok(s) => Ok(s.into_owned()),
        Err(e) => Err(e),
    }
}

/// A text with each literal `%0a` and `%0A` turned into a newline.
pub open spec fn newline_normalized(text: Seq<char>) -> Seq<char> {
    replaced(replaced(text, "%0a"@, "\n"@), "%0A"@, "\n"@)
}

/// The bytes that the text of a request decodes to: its newlines are
/// normalized, then its UTF-8 form is percent-decoded.
pub open spec fn decoded_bytes(moji: Seq<char>) -> Seq<u8> {
    percent_decoded(encode_utf8(newline_normalized(moji)))
}

/// The text that the text of a request decodes to: what its decoded bytes
/// spell in UTF-8, where they spell anything.
pub open spec fn decoded_text(moji: Seq<char>) -> Option<Seq<char>> {
    if valid_utf8(decoded_bytes(moji)) {
        Some(decode_utf8(decoded_bytes(moji)))
    } else {
        None
    }
}

/// Decodes the text of a request: normalizes its newlines, then
/// percent-decodes it. Fails exactly where the decoded bytes are not UTF-8.
pub fn decode_moji(moji: &str) -> (r: Result<String, EmogenError>)
    ensures
        match r {
            Ok(s) => decoded_text(moji@) == Some(s@),
            Err(e) => decoded_text(moji@) is None && e == EmogenError::Decode,
        },
{
    let lower = replace(moji, "%0a", "\n");
    let both = replace(lower.as_str(), "%0A", "\n");
    match percent_decode(both.as_str()) {
        Ok(s) => Ok(s),
        Err(_) => Err(EmogenError::Decode),
    }
}

} // verus!
