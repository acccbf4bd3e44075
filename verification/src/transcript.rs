//! Assembly of the text segments of one utterance into one line.
//!
//! Policy, fixed here: a segment that is exactly the blank-audio marker is
//! left out; every other segment is stripped of surrounding whitespace; the
//! survivors are joined in order with `SEGMENT_SEPARATOR` between them.

use vstd::prelude::*;
use vstd::string::{StrSliceExecFns, StringExecFns};

verus! {

/// What the engine reports for a stretch of audio without speech.
pub const BLANK_AUDIO: &'static str = "[BLANK_AUDIO]";

/// What stands between two segments of the assembled text: nothing.
pub const SEGMENT_SEPARATOR: &'static str = "";

/// Whether `c` has the Unicode property White_Space: one of the 25 code
/// points that the Unicode Character Database lists under it.
pub open spec fn is_whitespace(c: char) -> bool {
    let code = c as u32;
    ||| 0x0009 <= code <= 0x000D
    ||| code == 0x0020
    ||| code == 0x0085
    ||| code == 0x00A0
    ||| code == 0x1680
    ||| 0x2000 <= code <= 0x200A
    ||| code == 0x2028
    ||| code == 0x2029
    ||| code == 0x202F
    ||| code == 0x205F
    ||| code == 0x3000
}

/// The number of whitespace characters at the front of `text`.
pub open spec fn leading_whitespace(text: Seq<char>) -> nat
    decreases text.len(),
{
    if text.len() > 0 && is_whitespace(text.first()) {
        1 + leading_whitespace(text.drop_first())
    } else {
        0
    }
}

/// The number of whitespace characters at the back of `text`.
pub open spec fn trailing_whitespace(text: Seq<char>) -> nat
    decreases text.len(),
{
    if text.len() > 0 && is_whitespace(text.last()) {
        1 + trailing_whitespace(text.drop_last())
    } else {
        0
    }
}

/// `text` without the whitespace at its front and at its back.
pub open spec fn trimmed(text: Seq<char>) -> Seq<char> {
    let rest = text.skip(leading_whitespace(text) as int);
    rest.take(rest.len() - trailing_whitespace(rest))
}

/// Whether the segment is exactly the blank-audio marker.
pub open spec fn is_blank(segment: Seq<char>) -> bool {
    segment == BLANK_AUDIO@
}

/// The segments that are not the blank-audio marker, in order.
pub open spec fn without_blanks(segments: Seq<Seq<char>>) -> Seq<Seq<char>>
    decreases segments.len(),
{
    if segments.len() == 0 {
        Seq::empty()
    } else if is_blank(segments.last()) {
        without_blanks(segments.drop_last())
    } else {
        without_blanks(segments.drop_last()).push(segments.last())
    }
}

/// Each part stripped of surrounding whitespace.
pub open spec fn all_trimmed(parts: Seq<Seq<char>>) -> Seq<Seq<char>> {
    Seq::new(parts.len(), |index: int| trimmed(parts[index]))
}

/// The parts in order, with `separator` between each two.
pub open spec fn joined(parts: Seq<Seq<char>>, separator: Seq<char>) -> Seq<char>
    decreases parts.len(),
{
    if parts.len() == 0 {
        Seq::empty()
    } else if parts.len() == 1 {
        parts[0]
    } else {
        joined(parts.drop_last(), separator) + separator + parts.last()
    }
}

/// The text of an utterance whose segments are `segments`.
pub open spec fn transcript_of(segments: Seq<Seq<char>>) -> Seq<char> {
    joined(all_trimmed(without_blanks(segments)), SEGMENT_SEPARATOR@)
}

/// The contents of each segment.
pub open spec fn segment_views(segments: Seq<String>) -> Seq<Seq<char>> {
    Seq::new(segments.len(), |index: int| segments[index]@)
}

/// `char::is_whitespace`: whether the character has the Unicode property
/// White_Space. The contract claims that the answer is `true` on the code
/// points listed in `is_whitespace` and on no other.
#[verifier::external_body]
fn char_is_whitespace(c: char) -> (whitespace: bool)
    ensures
        whitespace == is_whitespace(c),
{
    c.is_whitespace()
}

/// A text that starts with `count` whitespace characters and either ends
/// there or goes on with another character has `count` leading whitespace
/// characters.
proof fn lemma_leading_whitespace(text: Seq<char>, count: int)
    requires
        0 <= count <= text.len(),
        forall|index: int| 0 <= index < count ==> is_whitespace(#[trigger] text[index]),
        count < text.len() ==> !is_whitespace(text[count]),
    ensures
        leading_whitespace(text) == count,
    decreases count,
{
    if count > 0 {
        let rest = text.drop_first();
        assert forall|index: int| 0 <= index < count - 1 implies is_whitespace(
            #[trigger] rest[index],
        ) by {
            assert(rest[index] == text[index + 1]);
        }
        lemma_leading_whitespace(rest, count - 1);
    }
}

/// A text that ends with `count` whitespace characters and either starts
/// there or has another character before them has `count` trailing
/// whitespace characters.
proof fn lemma_trailing_whitespace(text: Seq<char>, count: int)
    requires
        0 <= count <= text.len(),
        forall|index: int|
            text.len() - count <= index < text.len() ==> is_whitespace(#[trigger] text[index]),
        count < text.len() ==> !is_whitespace(text[text.len() - count - 1]),
    ensures
        trailing_whitespace(text) == count,
    decreases count,
{
    if count > 0 {
        let rest = text.drop_last();
        assert forall|index: int| rest.len() - (count - 1) <= index < rest.len() implies is_whitespace(
            #[trigger] rest[index],
        ) by {
            assert(rest[index] == text[index]);
        }
        lemma_trailing_whitespace(rest, count - 1);
    }
}

/// A text cut between its first and behind its last character that is not
/// whitespace is the text trimmed: if everything before `start` and from
/// `end` on is whitespace, and the stretch between them is empty or begins
/// and ends with another character, that stretch is `trimmed(text)`.
pub proof fn lemma_trimmed_between(text: Seq<char>, start: int, end: int)
    requires
        0 <= start <= end <= text.len(),
        forall|index: int| 0 <= index < start ==> is_whitespace(#[trigger] text[index]),
        forall|index: int| end <= index < text.len() ==> is_whitespace(#[trigger] text[index]),
        start < end ==> !is_whitespace(text[start]) && !is_whitespace(text[end - 1]),
        start == end ==> start == text.len(),
    ensures
        trimmed(text) == text.subrange(start, end),
{
    let rest = text.skip(start);
    lemma_leading_whitespace(text, start);
    assert forall|index: int| rest.len() - (text.len() - end) <= index < rest.len() implies is_whitespace(
        #[trigger] rest[index],
    ) by {
        assert(rest[index] == text[index + start]);
    }
    if text.len() - end < rest.len() {
        assert(rest[rest.len() - (text.len() - end) - 1] == text[end - 1]);
    }
    lemma_trailing_whitespace(rest, text.len() - end);
    assert(text.subrange(start, end) =~= rest.take(rest.len() - (text.len() - end)));
}

/// The text without the whitespace at its front and at its back.
///
/// On a given text, `lemma_trimmed_between` names the result.
pub fn trim(text: &str) -> (stripped: &str)
    ensures
        stripped@ == trimmed(text@),
{
    let len: usize = text.unicode_len();
    let mut start: usize = 0;
    while start < len
        invariant
            len == text@.len(),
            start <= len,
            forall|index: int| 0 <= index < start ==> is_whitespace(#[trigger] text@[index]),
        ensures
            start <= len,
            forall|index: int| 0 <= index < start ==> is_whitespace(#[trigger] text@[index]),
            start < len ==> !is_whitespace(text@[start as int]),
        decreases len - start,
    {
        if !char_is_whitespace(text.get_char(start)) {
            break;
        }
        start += 1;
    }
    let mut end: usize = len;
    while end > start
        invariant
            len == text@.len(),
            start <= end <= len,
            forall|index: int| end <= index < len ==> is_whitespace(#[trigger] text@[index]),
        ensures
            start <= end <= len,
            forall|index: int| end <= index < len ==> is_whitespace(#[trigger] text@[index]),
            end > start ==> !is_whitespace(text@[end - 1]),
        decreases end,
    {
        if !char_is_whitespace(text.get_char(end - 1)) {
            break;
        }
        end -= 1;
    }
    proof {
        lemma_trimmed_between(text@, start as int, end as int);
    }
    text.substring_char(start, end)
}

/// Assembles the text of an utterance from the engine's segments.
pub fn assemble(segments: &Vec<String>) -> (text: String)
    ensures
        text@ == transcript_of(segment_views(segments@)),
{
    let blank: String = String::from_str(BLANK_AUDIO);
    let mut text: String = String::new();
    let mut survivors: usize = 0;
    let mut at: usize = 0;
    let ghost views: Seq<Seq<char>> = segment_views(segments@);
    proof {
        assert(views.take(0) =~= Seq::<Seq<char>>::empty());
    }
    while at < segments.len()
        invariant
            at <= segments@.len(),
            views == segment_views(segments@),
            blank@ == BLANK_AUDIO@,
            survivors == without_blanks(views.take(at as int)).len(),
            survivors <= at,
            text@ == transcript_of(views.take(at as int)),
        decreases segments@.len() - at,
    {
        proof {
            assert(views.take(at + 1).drop_last() =~= views.take(at as int));
            assert(views.take(at + 1).last() == segments@[at as int]@);
        }
        if segments[at] != blank {
            let stripped: &str = trim(segments[at].as_str());
            proof {
                let before = without_blanks(views.take(at as int));
                let after = without_blanks(views.take(at + 1));
                assert(after == before.push(segments@[at as int]@));
                assert(all_trimmed(after).drop_last() =~= all_trimmed(before));
                assert(all_trimmed(after).last() == stripped@);
            }
            if survivors > 0 {
                text.append(SEGMENT_SEPARATOR);
            }
            text.append(stripped);
            survivors += 1;
        }
        at += 1;
    }
    proof {
        assert(views.take(at as int) =~= views);
    }
    text
}

/// Leaving the blank-audio markers out before assembly changes nothing:
/// the text of the segments is the text of the segments without the markers.
pub proof fn lemma_blank_filter_idempotent(segments: Seq<Seq<char>>)
    ensures
        without_blanks(without_blanks(segments)) == without_blanks(segments),
        transcript_of(without_blanks(segments)) == transcript_of(segments),
    decreases segments.len(),
{
    if segments.len() > 0 {
        lemma_blank_filter_idempotent(segments.drop_last());
        if !is_blank(segments.last()) {
            let kept = without_blanks(segments);
            assert(kept.drop_last() =~= without_blanks(segments.drop_last()));
            assert(kept.last() == segments.last());
        }
    }
}

/// A blank-audio marker anywhere among the segments leaves no trace in the
/// text.
pub proof fn lemma_blank_leaves_no_trace(before: Seq<Seq<char>>, after: Seq<Seq<char>>)
    ensures
        transcript_of(before + seq![BLANK_AUDIO@] + after) == transcript_of(before + after),
{
    lemma_without_blanks_concat(before, seq![BLANK_AUDIO@]);
    lemma_without_blanks_concat(before + seq![BLANK_AUDIO@], after);
    lemma_without_blanks_concat(before, after);
    let marker = seq![BLANK_AUDIO@];
    assert(marker.drop_last() =~= Seq::<Seq<char>>::empty());
    assert(is_blank(marker.last()));
    assert(without_blanks(marker.drop_last()) =~= Seq::<Seq<char>>::empty());
    assert(without_blanks(marker) =~= Seq::<Seq<char>>::empty());
    assert(without_blanks(before) + Seq::<Seq<char>>::empty() =~= without_blanks(before));
}

/// Leaving out the markers goes segment by segment.
pub proof fn lemma_without_blanks_concat(front: Seq<Seq<char>>, back: Seq<Seq<char>>)
    ensures
        without_blanks(front + back) == without_blanks(front) + without_blanks(back),
    decreases back.len(),
{
    if back.len() == 0 {
        assert(front + back =~= front);
        assert(without_blanks(front) + without_blanks(back) =~= without_blanks(front));
    } else {
        lemma_without_blanks_concat(front, back.drop_last());
        assert((front + back).drop_last() =~= front + back.drop_last());
        assert((front + back).last() == back.last());
        if !is_blank(back.last()) {
            assert((without_blanks(front) + without_blanks(back.drop_last())).push(back.last())
                =~= without_blanks(front) + without_blanks(back.drop_last()).push(back.last()));
        }
    }
}

} // verus!
