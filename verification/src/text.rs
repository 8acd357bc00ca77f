//! Cutting a text into the segments that lie between occurrences of a separator character.
//!
//! A text with `n` separators has `n + 1` segments; a segment is empty where two separators
//! touch, or where the text starts or ends with one. The empty text has one, empty, segment.

use vstd::prelude::*;
use vstd::string::StrSliceExecFns;

verus! {

/// Where the first `separator` stands in `text`, or `text.len()` if there is none.
pub open spec fn first_separator(text: Seq<char>, separator: char) -> int
    decreases text.len(),
{
    if text.len() == 0 || text[0] == separator {
        0
    } else {
        1 + first_separator(text.drop_first(), separator)
    }
}

/// The segments of `text`: what stands before the first `separator`, then the segments of
/// what follows it.
pub open spec fn split(text: Seq<char>, separator: char) -> Seq<Seq<char>>
    decreases text.len(),
{
    let at = first_separator(text, separator);
    if 0 <= at < text.len() {
        seq![text.take(at)] + split(text.skip(at + 1), separator)
    } else {
        seq![text]
    }
}

/// The segments written one after the other with a `separator` between neighbours.
pub open spec fn join(segments: Seq<Seq<char>>, separator: char) -> Seq<char>
    decreases segments.len(),
{
    if segments.len() == 0 {
        Seq::empty()
    } else if segments.len() == 1 {
        segments[0]
    } else {
        segments[0] + seq![separator] + join(segments.drop_first(), separator)
    }
}

/// The texts that a sequence of strings holds.
pub open spec fn texts(strings: Seq<String>) -> Seq<Seq<char>> {
    Seq::new(strings.len(), |i: int| strings[i]@)
}

/// `first_separator` is in range, no separator stands before it, and one stands at it unless
/// it is the length of the text.
pub proof fn lemma_first_separator(text: Seq<char>, separator: char)
    ensures
        0 <= first_separator(text, separator) <= text.len(),
        forall|j: int| 0 <= j < first_separator(text, separator) ==> text[j] != separator,
        first_separator(text, separator) < text.len() ==> text[first_separator(
            text,
            separator,
        )] == separator,
    decreases text.len(),
{
    if text.len() > 0 && text[0] != separator {
        let rest = text.drop_first();
        lemma_first_separator(rest, separator);
        let at = first_separator(rest, separator);
        assert forall|j: int| 0 <= j < at + 1 implies text[j] != separator by {
            if j > 0 {
                assert(text[j] == rest[j - 1]);
            }
        }
    }
}

/// A position with no separator before it, which holds a separator or is the end of the
/// text, is `first_separator`.
pub proof fn lemma_first_separator_is(text: Seq<char>, separator: char, at: int)
    requires
        0 <= at <= text.len(),
        forall|j: int| 0 <= j < at ==> text[j] != separator,
        at < text.len() ==> text[at] == separator,
    ensures
        first_separator(text, separator) == at,
    decreases text.len(),
{
    if text.len() > 0 && text[0] != separator {
        lemma_first_separator_is(text.drop_first(), separator, at - 1);
    }
}

/// There is at least one segment, and no segment holds a separator.
pub proof fn lemma_split_segments(text: Seq<char>, separator: char)
    ensures
        split(text, separator).len() >= 1,
        forall|i: int|
            0 <= i < split(text, separator).len() ==> !(#[trigger] split(text, separator)[i])
                .contains(separator),
    decreases text.len(),
{
    lemma_first_separator(text, separator);
    let at = first_separator(text, separator);
    if 0 <= at < text.len() {
        lemma_split_segments(text.skip(at + 1), separator);
    }
}

/// Joining the segments of a text with the separator gives the text back.
pub proof fn lemma_join_split(text: Seq<char>, separator: char)
    ensures
        join(split(text, separator), separator) == text,
    decreases text.len(),
{
    lemma_first_separator(text, separator);
    let at = first_separator(text, separator);
    if 0 <= at < text.len() {
        let tail = text.skip(at + 1);
        lemma_join_split(tail, separator);
        lemma_split_segments(tail, separator);
        assert(split(text, separator).drop_first() =~= split(tail, separator));
    }
}

/// The text is split in one way only: segments without a separator that join to the text
/// are its segments.
pub proof fn lemma_split_unique(segments: Seq<Seq<char>>, text: Seq<char>, separator: char)
    requires
        segments.len() >= 1,
        forall|i: int| 0 <= i < segments.len() ==> !(#[trigger] segments[i]).contains(separator),
        join(segments, separator) == text,
    ensures
        segments == split(text, separator),
    decreases segments.len(),
{
    let head = segments[0];
    if segments.len() == 1 {
        lemma_split_without_separator(text, separator);
    } else {
        let others = segments.drop_first();
        let tail = join(others, separator);
        let at = head.len() as int;
        assert forall|j: int| 0 <= j < at implies text[j] != separator by {
            assert(head.contains(text[j]));
        }
        lemma_first_separator_is(text, separator, at);
        assert(text.take(at) =~= head);
        assert(text.skip(at + 1) =~= tail);
        assert forall|i: int| 0 <= i < others.len() implies !(#[trigger] others[i]).contains(
            separator,
        ) by {
            assert(others[i] == segments[i + 1]);
        }
        lemma_split_unique(others, tail, separator);
    }
}

/// The first segment is empty exactly when the text is empty or starts with the separator.
pub proof fn lemma_first_segment_empty(text: Seq<char>, separator: char)
    ensures
        split(text, separator)[0].len() == 0 <==> (text.len() == 0 || text[0] == separator),
        split(text, separator)[0] == text.take(first_separator(text, separator)),
{
    lemma_first_separator(text, separator);
}

/// A text in which the separator does not occur is its own single segment.
pub proof fn lemma_split_without_separator(text: Seq<char>, separator: char)
    requires
        !text.contains(separator),
    ensures
        split(text, separator) == seq![text],
{
    assert forall|j: int| 0 <= j < text.len() implies text[j] != separator by {
        assert(text.contains(text[j]));
    }
    lemma_first_separator_is(text, separator, text.len() as int);
}

/// Cuts `text` at every `separator` and returns the segments in order.
pub fn split_text(text: &str, separator: char) -> (segments: Vec<String>)
    ensures
        texts(segments@) == split(text@, separator),
{
    let len: usize = text.unicode_len();
    let mut segments: Vec<String> = Vec::new();
    let mut start: usize = 0;
    let mut at: usize = 0;
    proof {
        assert(text@.skip(0) =~= text@);
    }
    for c in it: text.chars()
        invariant
            it.seq() == text@,
            len == text@.len(),
            at == it.index(),
            start <= at,
            forall|j: int| start <= j < at ==> text@[j] != separator,
            split(text@, separator) == texts(segments@) + split(
                text@.skip(start as int),
                separator,
            ),
    {
        if c == separator {
            let segment = text.substring_char(start, at).to_owned();
            proof {
                let tail = text@.skip(start as int);
                let found = at - start;
                lemma_first_separator_is(tail, separator, found);
                assert(tail.take(found) =~= text@.subrange(start as int, at as int));
                assert(tail.skip(found + 1) =~= text@.skip(at + 1));
            }
            segments.push(segment);
            start = at + 1;
        }
        at = at + 1;
    }
    let segment = text.substring_char(start, len).to_owned();
    proof {
        let tail = text@.skip(start as int);
        lemma_first_separator_is(tail, separator, tail.len() as int);
    }
    segments.push(segment);
    segments
}

} // verus!
