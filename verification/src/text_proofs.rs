use vstd::prelude::*;
use crate::text::{line_at, word_end, wrapped, wrapped_from, SegmentView, TEXT_BOX_USABLE_WIDTH};

verus! {

/// The lines one after the other, with a space between each two.
pub open spec fn joined(lines: Seq<SegmentView>) -> Seq<u8>
    decreases lines.len(),
{
    if lines.len() == 0 {
        Seq::empty()
    } else if lines.len() == 1 {
        lines[0].line()
    } else {
        joined(lines.drop_last()) + seq![0x20u8] + lines.last().line()
    }
}

/// The words of `text`: what stands between its spaces, before the first and after the last.
/// A text with `n` spaces has `n + 1` words, some of which may be empty.
pub open spec fn words(text: Seq<u8>) -> Seq<Seq<u8>>
    decreases text.len(),
{
    if text.len() == 0 {
        seq![Seq::empty()]
    } else if text.last() == 0x20 {
        words(text.drop_last()).push(Seq::empty())
    } else {
        let before = words(text.drop_last());
        before.update(before.len() - 1, before.last().push(text.last()))
    }
}

/// The words of the lines, line after line.
pub open spec fn line_words(lines: Seq<SegmentView>) -> Seq<Seq<u8>>
    decreases lines.len(),
{
    if lines.len() == 0 {
        Seq::empty()
    } else {
        line_words(lines.drop_last()) + words(lines.last().line())
    }
}

/// Whether `text` has no space before index `i`.
pub open spec fn spaceless(text: Seq<u8>, i: int) -> bool {
    forall|j: int| 0 <= j < i ==> #[trigger] text[j] != 0x20
}

/// Whether the first two words of `text` fit in one line of the box together: the word after
/// the first space ends before the width of the box. A text without a space begins so.
pub open spec fn begins_narrow(text: Seq<u8>) -> bool {
    forall|first: int|
        0 <= first < text.len() && #[trigger] text[first] == 0x20 && spaceless(text, first)
            ==> word_end(text, first + 1) < TEXT_BOX_USABLE_WIDTH
}

/// A word ends at or after its beginning, within the text, at a space or at the end of the
/// text, and has no space in it.
pub proof fn lemma_word_end(text: Seq<u8>, from: int)
    requires
        0 <= from <= text.len(),
    ensures
        from <= word_end(text, from) <= text.len(),
        from < text.len() && text[from] == 0x20 ==> word_end(text, from) == from,
        from < text.len() && text[from] != 0x20 ==> word_end(text, from) == word_end(
            text,
            from + 1,
        ),
    decreases text.len() - from,
{
    if from < text.len() && text[from] != 0x20 {
        lemma_word_end(text, from + 1);
    }
}

/// Every text has a word.
pub proof fn lemma_words_exist(text: Seq<u8>)
    ensures
        words(text).len() >= 1,
    decreases text.len(),
{
    if text.len() > 0 {
        lemma_words_exist(text.drop_last());
    }
}

/// The words of two texts with a space between them are the words of the one and then the
/// words of the other.
pub proof fn lemma_words_of_joined(a: Seq<u8>, b: Seq<u8>)
    ensures
        words(a + seq![0x20u8] + b) == words(a) + words(b),
    decreases b.len(),
{
    let whole = a + seq![0x20u8] + b;
    lemma_words_exist(a);
    if b.len() == 0 {
        assert(whole.drop_last() =~= a);
        assert(words(a).push(Seq::empty()) =~= words(a) + words(b));
    } else {
        let rest = b.drop_last();
        assert(whole.drop_last() =~= a + seq![0x20u8] + rest);
        assert(whole.last() == b.last());
        lemma_words_of_joined(a, rest);
        lemma_words_exist(rest);
        let before = words(a) + words(rest);
        if b.last() == 0x20 {
            assert(before.push(Seq::empty()) =~= words(a) + words(rest).push(Seq::empty()));
        } else {
            assert(before.last() == words(rest).last());
            assert(before.update(before.len() - 1, before.last().push(b.last())) =~= words(a)
                + words(rest).update(words(rest).len() - 1, words(rest).last().push(b.last())));
        }
    }
}

/// The words of the lines are the words of the lines joined.
pub proof fn lemma_line_words(lines: Seq<SegmentView>)
    requires
        lines.len() >= 1,
    ensures
        line_words(lines) == words(joined(lines)),
    decreases lines.len(),
{
    if lines.len() == 1 {
        assert(lines.drop_last().len() == 0);
        assert(line_words(lines.drop_last()) =~= Seq::<Seq<u8>>::empty());
        assert(line_words(lines) =~= words(lines[0].line()));
    } else {
        lemma_line_words(lines.drop_last());
        lemma_words_of_joined(joined(lines.drop_last()), lines.last().line());
    }
}

/// What the breaking of a text into lines keeps, from any point on its way: the lines that
/// are complete, joined, and a space after them, are the text before the line in hand; and the
/// last word seen ends where the next space is, once a space has been seen.
proof fn lemma_wrapped_from(
    text: Seq<u8>,
    i: int,
    line_start: int,
    last_end: int,
    y: int,
    done: Seq<SegmentView>,
)
    requires
        begins_narrow(text),
        0 <= line_start <= i <= text.len(),
        done.len() == 0 ==> line_start == 0,
        done.len() > 0 ==> joined(done) + seq![0x20u8] == text.subrange(0, line_start),
        last_end == word_end(text, i) || (spaceless(text, i) && done.len() == 0),
    ensures
        wrapped_from(text, i, line_start, last_end, y, done).len() >= 1,
        joined(wrapped_from(text, i, line_start, last_end, y, done)) == text,
    decreases text.len() - i,
{
    if i >= text.len() {
        let last = line_at(text, line_start, text.len() as int, y);
        let lines = done.push(last);
        assert(lines.drop_last() =~= done);
        if done.len() == 0 {
            assert(last.line() =~= text);
        } else {
            assert(text.subrange(0, line_start) + last.line() =~= text);
        }
    } else if text[i] == 0x20 {
        lemma_word_end(text, i);
        lemma_word_end(text, i + 1);
        let end_of_word = word_end(text, i + 1);
        if end_of_word - line_start >= TEXT_BOX_USABLE_WIDTH {
            // A line is closed only after a space has been seen, so the last word ends here.
            assert(last_end == i) by {
                if spaceless(text, i) && done.len() == 0 {
                    assert(text[i] == 0x20);
                }
            }
            let closed = line_at(text, line_start, last_end, y);
            let lines = done.push(closed);
            assert(lines.drop_last() =~= done);
            if done.len() == 0 {
                assert(closed.line() + seq![0x20u8] =~= text.subrange(0, i + 1));
            } else {
                assert(text.subrange(0, line_start) + closed.line() + seq![0x20u8]
                    =~= text.subrange(0, i + 1));
                assert(joined(lines) + seq![0x20u8] =~= text.subrange(0, line_start)
                    + closed.line() + seq![0x20u8]);
            }
            lemma_wrapped_from(text, i + 1, i + 1, end_of_word, crate::xy::clamped(y + 1), lines);
        } else {
            lemma_wrapped_from(text, i + 1, line_start, end_of_word, y, done);
        }
    } else {
        lemma_word_end(text, i);
        if !(last_end == word_end(text, i)) {
            assert(spaceless(text, i + 1));
        }
        lemma_wrapped_from(text, i + 1, line_start, last_end, y, done);
    }
}

/// The lines that a text is broken into, joined with a space between each two, are the text,
/// and so the words of the lines, in their order, are the words of the text: nothing but the
/// spaces at which the lines are broken is left out, and nothing is added. This holds of every
/// text whose first two words fit in one line together.
pub proof fn lines_keep_the_words(text: Seq<u8>)
    requires
        begins_narrow(text),
    ensures
        wrapped(text).len() >= 1,
        joined(wrapped(text)) == text,
        line_words(wrapped(text)) == words(text),
{
    lemma_wrapped_from(text, 0, 0, 0, crate::text::TEXT_BOX_FIRST_LINE as int, Seq::empty());
    lemma_line_words(wrapped(text));
}

} // verus!
