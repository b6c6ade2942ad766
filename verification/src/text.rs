use vstd::prelude::*;
use vstd::slice::slice_subrange;
use crate::xy::{clamped, const_add_h, x as x_of, y as y_of, H, X, Y};

verus! {

/// The row of the top of the text box.
pub const TEXT_BOX_TOP_ROW: u8 = 24;

/// The column in which each line of a message begins.
pub const TEXT_BOX_FIRST_COLUMN: u8 = 1;

/// The row of the first line of a message.
pub const TEXT_BOX_FIRST_LINE: u8 = 25;

/// How many characters fit in one line of the text box.
pub const TEXT_BOX_USABLE_WIDTH: usize = 30;

/// A run of characters of a text, and where on the screen it begins.
#[derive(Clone, Copy, Debug)]
pub struct Segment {
    pub text: &'static [u8],
    pub start: usize,
    pub end: usize,
    pub x: X,
    pub y: Y,
}

/// A `Segment` as the contracts see it.
pub struct SegmentView {
    pub text: Seq<u8>,
    pub start: int,
    pub end: int,
    pub x: int,
    pub y: int,
}

impl SegmentView {
    /// Whether the run lies inside the text.
    pub open spec fn valid(self) -> bool {
        0 <= self.start <= self.end <= self.text.len()
    }

    /// The characters of the run.
    pub open spec fn line(self) -> Seq<u8> {
        self.text.subrange(self.start, self.end)
    }
}

impl View for Segment {
    type V = SegmentView;

    open spec fn view(&self) -> SegmentView {
        SegmentView {
            text: self.text@,
            start: self.start as int,
            end: self.end as int,
            x: self.x@,
            y: self.y@,
        }
    }
}

impl Segment {
    /// The whole of `text`, to begin at `(x, y)`.
    pub fn whole(text: &'static [u8], x: X, y: Y) -> (r: Segment)
        ensures
            r@ == (SegmentView { text: text@, start: 0, end: text@.len() as int, x: x@, y: y@ }),
            r@.valid(),
    {
        Segment { text, start: 0, end: text.len(), x, y }
    }

    /// The characters of the run.
    pub fn as_slice(&self) -> (r: &[u8])
        requires
            self@.valid(),
        ensures
            r@ == self@.line(),
    {
        slice_subrange(self.text, self.start, self.end)
    }
}

/// The lines of a message, top line first.
pub struct SegmentSlice {
    segments: Vec<Segment>,
}

/// The segments as the contracts see them.
pub open spec fn lines_of(segments: Seq<Segment>) -> Seq<SegmentView> {
    Seq::new(segments.len(), |i: int| segments[i]@)
}

impl View for SegmentSlice {
    type V = Seq<SegmentView>;

    closed spec fn view(&self) -> Seq<SegmentView> {
        lines_of(self.segments@)
    }
}

impl SegmentSlice {
    /// The lines.
    pub fn as_slice(&self) -> (r: &[Segment])
        ensures
            lines_of(r@) == self@,
    {
        self.segments.as_slice()
    }

    /// The lines, handed over.
    pub fn into_vec(self) -> (r: Vec<Segment>)
        ensures
            lines_of(r@) == self@,
    {
        self.segments
    }
}

/// The index at which the word ends that holds the character at `from`: that of the first
/// space from `from` on, and the length of the text if there is none.
pub open spec fn word_end(text: Seq<u8>, from: int) -> int
    decreases text.len() - from,
{
    if from < 0 || from >= text.len() {
        text.len() as int
    } else if text[from] == 0x20 {
        from
    } else {
        word_end(text, from + 1)
    }
}

/// The segment of `text` from `start` to `end`, in the first column of row `y`.
pub open spec fn line_at(text: Seq<u8>, start: int, end: int, y: int) -> SegmentView {
    SegmentView { text, start, end, x: TEXT_BOX_FIRST_COLUMN as int, y }
}

/// The lines that `text` is broken into, when the characters before `i` have been dealt with:
/// `done` holds the lines that are complete, the line in hand began at `line_start` and is to
/// stand in row `y`, and the last word seen so far ended at `last_end`.
///
/// Each space is looked at in turn. When the line in hand, taken up to the end of the word
/// that follows the space, would be as wide as the box or wider, the line is closed at the end
/// of the word before the space, and the next line begins behind the space, one row down. The
/// rest of the text is the last line.
pub open spec fn wrapped_from(
    text: Seq<u8>,
    i: int,
    line_start: int,
    last_end: int,
    y: int,
    done: Seq<SegmentView>,
) -> Seq<SegmentView>
    decreases text.len() - i,
{
    if i < 0 || i >= text.len() {
        done.push(line_at(text, line_start, text.len() as int, y))
    } else if text[i] == 0x20 {
        let end_of_word = word_end(text, i + 1);
        if end_of_word - line_start >= TEXT_BOX_USABLE_WIDTH {
            wrapped_from(
                text,
                i + 1,
                i + 1,
                end_of_word,
                clamped(y + 1),
                done.push(line_at(text, line_start, last_end, y)),
            )
        } else {
            wrapped_from(text, i + 1, line_start, end_of_word, y, done)
        }
    } else {
        wrapped_from(text, i + 1, line_start, last_end, y, done)
    }
}

/// The lines that `text` is broken into to fit the text box.
pub open spec fn wrapped(text: Seq<u8>) -> Seq<SegmentView> {
    wrapped_from(text, 0, 0, 0, TEXT_BOX_FIRST_LINE as int, Seq::empty())
}

/// Whether every line lies inside its text.
pub open spec fn lines_valid(lines: Seq<SegmentView>) -> bool {
    forall|k: int| 0 <= k < lines.len() ==> (#[trigger] lines[k]).valid()
}

/// Breaks `s` into lines that fit the text box, at spaces.
pub fn fit_in_text_box(s: &'static [u8]) -> (r: SegmentSlice)
    ensures
        r@ == wrapped(s@),
        lines_valid(r@),
        r@.len() >= 1,
        forall|k: int| 0 <= k < r@.len() ==> (#[trigger] r@[k]).text == s@,
{
    let mut segments: Vec<Segment> = Vec::new();
    let mut line_start_index: usize = 0;
    let mut end_of_last_word: usize = 0;
    let mut y: Y = y_of(TEXT_BOX_FIRST_LINE);
    let mut i: usize = 0;
    assert(lines_of(segments@) =~= Seq::empty());
    while i < s.len()
        invariant
            i <= s@.len(),
            line_start_index <= i,
            line_start_index <= end_of_last_word <= s@.len(),
            lines_valid(lines_of(segments@)),
            forall|k: int|
                0 <= k < segments@.len() ==> (#[trigger] lines_of(segments@)[k]).text == s@,
            wrapped_from(
                s@,
                i as int,
                line_start_index as int,
                end_of_last_word as int,
                y@,
                lines_of(segments@),
            ) == wrapped(s@),
        decreases s@.len() - i,
    {
        if s[i] == 0x20 {
            let mut end_of_word: usize = i + 1;
            while end_of_word < s.len() && s[end_of_word] != 0x20
                invariant
                    i + 1 <= end_of_word <= s@.len(),
                    word_end(s@, end_of_word as int) == word_end(s@, i + 1),
                decreases s@.len() - end_of_word,
            {
                end_of_word += 1;
            }
            let width: usize = end_of_word - line_start_index;
            if width >= TEXT_BOX_USABLE_WIDTH {
                let ghost before = lines_of(segments@);
                let segment = Segment {
                    text: s,
                    start: line_start_index,
                    end: end_of_last_word,
                    x: x_of(TEXT_BOX_FIRST_COLUMN),
                    y,
                };
                segments.push(segment);
                assert(lines_of(segments@) =~= before.push(
                    line_at(s@, line_start_index as int, end_of_last_word as int, y@),
                ));
                y = const_add_h(y, H::one());
                line_start_index = i + 1;
            }
            end_of_last_word = end_of_word;
        }
        i += 1;
    }
    let ghost before = lines_of(segments@);
    segments.push(
        Segment { text: s, start: line_start_index, end: s.len(), x: x_of(TEXT_BOX_FIRST_COLUMN), y },
    );
    assert(lines_of(segments@) =~= before.push(
        line_at(s@, line_start_index as int, s@.len() as int, y@),
    ));
    SegmentSlice { segments }
}

} // verus!
