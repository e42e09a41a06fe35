//! Text as sequences of characters: decoding, lines and separated fields.
//!
//! The mathematical side is [`find`], [`split`] and [`lines`] over
//! `Seq<char>`; the executable side computes the same values on `&str`.

use vstd::prelude::*;
use vstd::utf8::{decode_utf8, encode_utf8, encode_utf8_decode_utf8, valid_utf8};

verus! {

/// Ends a line, alone or after a [`CARRIAGE_RETURN`].
pub const LINE_FEED: char = '\n';

/// Ends a line, alone or before a [`LINE_FEED`].
pub const CARRIAGE_RETURN: char = '\r';

/// Holds of `c` and of no other character.
pub open spec fn is_char(c: char) -> spec_fn(char) -> bool {
    |x: char| x == c
}

/// Holds of the characters that end a line.
pub open spec fn ends_line() -> spec_fn(char) -> bool {
    |x: char| x == LINE_FEED || x == CARRIAGE_RETURN
}

/// How many characters of `s` stand before the first one that `stop` holds
/// of: the position of that character, or the length of `s` where there is
/// none.
pub open spec fn find(s: Seq<char>, stop: spec_fn(char) -> bool) -> int
    decreases s.len(),
{
    if s.len() == 0 || stop(s[0]) {
        0
    } else {
        1 + find(s.skip(1), stop)
    }
}

/// The pieces of `s` between the occurrences of `c`. There is one piece more
/// than there are occurrences, so the empty text has one empty piece.
pub open spec fn split(s: Seq<char>, c: char) -> Seq<Seq<char>>
    decreases s.len(),
{
    let i = find(s, is_char(c));
    if 0 <= i < s.len() {
        seq![s.take(i)] + split(s.skip(i + 1), c)
    } else {
        seq![s]
    }
}

/// How many characters the line ending at position `i` of `s` takes: two
/// where a carriage return is followed by a line feed, else one.
pub open spec fn ending_len(s: Seq<char>, i: int) -> int {
    if s[i] == CARRIAGE_RETURN && i + 1 < s.len() && s[i + 1] == LINE_FEED {
        2
    } else {
        1
    }
}

/// The lines of `s`, under any of the three conventions: a line ends at a
/// line feed, at a carriage return, or at a carriage return with a line feed
/// after it, which is one ending. What follows the last ending is a line of
/// its own unless it is empty.
pub open spec fn lines(s: Seq<char>) -> Seq<Seq<char>>
    decreases s.len(),
{
    let i = find(s, ends_line());
    if s.len() == 0 {
        Seq::empty()
    } else if 0 <= i < s.len() {
        seq![s.take(i)] + lines(s.skip(i + ending_len(s, i)))
    } else {
        seq![s]
    }
}

/// The view of each item of `items`.
pub open spec fn views<T: View>(items: Seq<T>) -> Seq<T::V> {
    Seq::new(items.len(), |i: int| items[i]@)
}

/// [`find`] stops at the first character that `stop` holds of, and not
/// before.
pub proof fn lemma_find(s: Seq<char>, stop: spec_fn(char) -> bool)
    ensures
        0 <= find(s, stop) <= s.len(),
        forall|j: int| 0 <= j < find(s, stop) ==> !stop(#[trigger] s[j]),
        find(s, stop) < s.len() ==> stop(s[find(s, stop)]),
    decreases s.len(),
{
    if s.len() != 0 && !stop(s[0]) {
        let rest = s.skip(1);
        lemma_find(rest, stop);
        assert forall|j: int| 0 <= j < find(s, stop) implies !stop(#[trigger] s[j]) by {
            if j > 0 {
                assert(s[j] == rest[j - 1]);
            }
        }
    }
}

/// A position with no such character before it, which holds one or is the
/// end of `s`, is the one that [`find`] gives.
pub proof fn lemma_find_is(s: Seq<char>, stop: spec_fn(char) -> bool, i: int)
    requires
        0 <= i <= s.len(),
        forall|j: int| 0 <= j < i ==> !stop(#[trigger] s[j]),
        i < s.len() ==> stop(s[i]),
    ensures
        find(s, stop) == i,
{
    lemma_find(s, stop);
}

/// `String::push` puts `ch` at the end of the text and leaves the rest as it
/// was.
pub assume_specification[ String::push ](text: &mut String, ch: char)
    ensures
        final(text)@ == old(text)@.push(ch),
;

/// The text that `raw` stands for when it is read as UTF-8, each malformed
/// byte sequence read as the replacement character U+FFFD.
pub uninterp spec fn lossy_text(raw: Seq<u8>) -> Seq<char>;

/// Decodes `raw` with `String::from_utf8_lossy`. That function never fails:
/// well-formed UTF-8 is decoded as it stands, and each malformed sequence
/// becomes U+FFFD. The contract gives the outcome its name, [`lossy_text`],
/// and says what it is for well-formed input; how malformed input is cut
/// into sequences is left to the standard library.
#[verifier::external_body]
pub(crate) fn decode_lossy(raw: &[u8]) -> (text: String)
    ensures
        text@ == lossy_text(raw@),
        valid_utf8(raw@) ==> text@ == decode_utf8(raw@),
{
    String::from_utf8_lossy(raw).into_owned()
}

/// `true` exactly when `a` and `b` are the same text.
pub fn same_text(a: &str, b: &str) -> (same: bool)
    ensures
        same == (a@ == b@),
{
    let x = a.as_bytes();
    let y = b.as_bytes();
    proof {
        // Two texts with the same bytes are the same text.
        encode_utf8_decode_utf8(a@);
        encode_utf8_decode_utf8(b@);
    }
    if x.len() != y.len() {
        return false;
    }
    let mut i: usize = 0;
    while i < x.len()
        invariant
            x@ == encode_utf8(a@),
            y@ == encode_utf8(b@),
            x.len() == y.len(),
            i <= x.len(),
            forall|j: int| 0 <= j < i ==> x[j] == y[j],
        decreases x.len() - i,
    {
        if x[i] != y[i] {
            return false;
        }
        i += 1;
    }
    assert(x@ =~= y@);
    true
}

/// The characters of `text`, in order.
pub fn chars_of(text: &str) -> (out: Vec<char>)
    ensures
        out@ == text@,
{
    let mut out: Vec<char> = Vec::new();
    for c in it: text.chars()
        invariant
            it.seq() == text@,
            out@ == text@.take(it.index() as int),
    {
        out.push(c);
    }
    out
}

/// The position of the first `c` at or after `start`, or the length of
/// `chars` where none follows.
pub fn find_from(chars: &[char], start: usize, c: char) -> (end: usize)
    requires
        start <= chars.len(),
    ensures
        start <= end <= chars.len(),
        end == start + find(chars@.skip(start as int), is_char(c)),
{
    let n = chars.len();
    let mut end: usize = start;
    while end < n && chars[end] != c
        invariant
            n == chars.len(),
            start <= end <= n,
            forall|j: int| start <= j < end ==> chars[j] != c,
        decreases n - end,
    {
        end += 1;
    }
    proof {
        lemma_find_is(chars@.skip(start as int), is_char(c), end - start);
    }
    end
}

/// The position of the first line ending at or after `start`, or the length
/// of `chars` where none follows.
pub fn find_line_end(chars: &[char], start: usize) -> (end: usize)
    requires
        start <= chars.len(),
    ensures
        start <= end <= chars.len(),
        end == start + find(chars@.skip(start as int), ends_line()),
{
    let n = chars.len();
    let mut end: usize = start;
    while end < n && chars[end] != LINE_FEED && chars[end] != CARRIAGE_RETURN
        invariant
            n == chars.len(),
            start <= end <= n,
            forall|j: int| start <= j < end ==> !ends_line()(chars[j]),
        decreases n - end,
    {
        end += 1;
    }
    proof {
        lemma_find_is(chars@.skip(start as int), ends_line(), end - start);
    }
    end
}

/// The characters of `chars` from `start` up to `end`, as a `String`.
pub fn string_of(chars: &[char], start: usize, end: usize) -> (text: String)
    requires
        start <= end <= chars.len(),
    ensures
        text@ == chars@.subrange(start as int, end as int),
{
    let mut text = String::new();
    let mut i: usize = start;
    while i < end
        invariant
            start <= i <= end <= chars.len(),
            text@ == chars@.subrange(start as int, i as int),
        decreases end - i,
    {
        text.push(chars[i]);
        i += 1;
    }
    text
}

/// The pieces of `text` between the occurrences of `separator`.
pub fn split_text(text: &str, separator: char) -> (pieces: Vec<String>)
    ensures
        views(pieces@) == split(text@, separator),
{
    let chars = chars_of(text);
    let n = chars.len();
    let mut pieces: Vec<String> = Vec::new();
    let mut start: usize = 0;
    proof {
        assert(chars@.skip(0) =~= text@);
    }
    loop
        invariant_except_break
            n == chars.len(),
            chars@ == text@,
            start <= n,
            split(text@, separator) == views(pieces@) + split(
                chars@.skip(start as int),
                separator,
            ),
        ensures
            views(pieces@) == split(text@, separator),
        decreases n - start,
    {
        let end = find_from(chars.as_slice(), start, separator);
        let piece = string_of(chars.as_slice(), start, end);
        let ghost rest = chars@.skip(start as int);
        pieces.push(piece);
        proof {
            // The piece is what stands before the separator, and what
            // follows the separator is still to be split.
            assert(rest.take(end - start) =~= chars@.subrange(start as int, end as int));
            if end < n {
                assert(rest.skip(end - start + 1) =~= chars@.skip(end + 1));
            }
        }
        if end < n {
            start = end + 1;
        } else {
            break ;
        }
    }
    pieces
}

/// The lines of `text`.
pub fn split_lines(text: &str) -> (out: Vec<String>)
    ensures
        views(out@) == lines(text@),
{
    let chars = chars_of(text);
    let n = chars.len();
    let mut out: Vec<String> = Vec::new();
    let mut start: usize = 0;
    proof {
        assert(chars@.skip(0) =~= text@);
    }
    while start < n
        invariant
            n == chars.len(),
            chars@ == text@,
            start <= n,
            lines(text@) == views(out@) + lines(chars@.skip(start as int)),
        decreases n - start,
    {
        let end = find_line_end(chars.as_slice(), start);
        let line = string_of(chars.as_slice(), start, end);
        let ghost rest = chars@.skip(start as int);
        out.push(line);
        let next = if end == n {
            n
        } else if chars[end] == CARRIAGE_RETURN && end + 1 < n && chars[end + 1] == LINE_FEED {
            end + 2
        } else {
            end + 1
        };
        proof {
            // The line is what stands before the ending, and what follows
            // the ending is still to be split.
            assert(rest.take(end - start) =~= chars@.subrange(start as int, end as int));
            if end < n {
                assert(rest.skip(end - start + ending_len(rest, end - start)) =~= chars@.skip(
                    next as int,
                ));
            }
        }
        start = next;
    }
    out
}

} // verus!
