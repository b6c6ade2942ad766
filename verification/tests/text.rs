use tile_world::text::{fit_in_text_box, SegmentSlice};

fn bytes_words(bytes: &[u8]) -> Vec<&[u8]> {
    bytes.split(|&c| c == b' ').collect()
}

fn segment_slice_words(segment_slice: &SegmentSlice) -> Vec<&[u8]> {
    let segments = segment_slice.as_slice();

    let mut output = Vec::with_capacity(segments.len() * 16);

    for segment in segments {
        output.extend(bytes_words(segment.as_slice()));
    }

    output
}

#[test]
fn on_this_long_text() {
    const TEXT: &[u8] = b"that's the trouble with kids these days, imagining some kind of absolute morality, independent of the consquences! pshaw!";

    let expected: Vec<_> = bytes_words(TEXT);

    let ss = fit_in_text_box(TEXT);

    let actual = segment_slice_words(&ss);

    assert_eq!(actual, expected);
}

#[test]
fn a_short_text_is_one_line() {
    let ss = fit_in_text_box(b"i forgot my part");
    let segments = ss.as_slice();
    assert_eq!(segments.len(), 1);
    assert_eq!(segments[0].start, 0);
    assert_eq!(segments[0].end, 16);
    assert_eq!(segments[0].x.get(), 1);
    assert_eq!(segments[0].y.get(), 25);
    assert_eq!(segments[0].as_slice(), b"i forgot my part");
}

#[test]
fn an_empty_text_is_one_empty_line() {
    let ss = fit_in_text_box(b"");
    let segments = ss.as_slice();
    assert_eq!(segments.len(), 1);
    assert_eq!(segments[0].as_slice(), b"");
}

#[test]
fn a_long_text_breaks_before_the_word_that_does_not_fit() {
    let ss = fit_in_text_box(b"push the north button first and then the others");
    let segments = ss.as_slice();
    assert_eq!(segments.len(), 2);
    assert_eq!(segments[0].as_slice(), b"push the north button first");
    assert_eq!(segments[0].y.get(), 25);
    assert_eq!(segments[1].as_slice(), b"and then the others");
    assert_eq!(segments[1].y.get(), 26);
    assert_eq!(segments[1].x.get(), 1);
}

#[test]
fn the_last_text_of_the_ramble_takes_five_lines() {
    let ss = fit_in_text_box(b"that's the trouble with kids these days, imagining some kind of absolute morality, independent of the consquences! pshaw!");
    let lines: Vec<&[u8]> = ss.as_slice().iter().map(|s| s.as_slice()).collect();
    let expected: Vec<&[u8]> = vec![
        b"that's the trouble with kids",
        b"these days, imagining some",
        b"kind of absolute morality,",
        b"independent of the",
        b"consquences! pshaw!",
    ];
    assert_eq!(lines, expected);
}
