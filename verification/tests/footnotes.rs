use charist::bibles::{CrossRef, Note, Verse};
use charist::footnotes::{
    clamp_to_char_boundary, collect_footnote_markers, snap_to_word_end, to_superscript,
    to_superscript_letter, verse_segments, FootnoteLink, FootnoteMarker, VerseSegment,
};

fn verse(text: &str, notes: Vec<(usize, &str)>, crosses: Vec<(usize, Vec<&str>)>) -> Verse {
    Verse(
        text.to_string(),
        notes.into_iter().map(|(offset, t)| Note { offset, text: t.to_string() }).collect(),
        crosses
            .into_iter()
            .map(|(offset, refs)| CrossRef {
                offset,
                references: refs.into_iter().map(|r| r.to_string()).collect(),
            })
            .collect(),
    )
}

#[test]
fn superscript_digits() {
    assert_eq!(to_superscript(0), "\u{2070}");
    assert_eq!(to_superscript(7), "\u{2077}");
    assert_eq!(to_superscript(12), "\u{b9}\u{b2}");
    assert_eq!(to_superscript(1039), "\u{b9}\u{2070}\u{b3}\u{2079}");
}

#[test]
fn superscript_letters_and_fallback() {
    assert_eq!(to_superscript_letter(1), "\u{1d43}");
    assert_eq!(to_superscript_letter(17), "q");
    assert_eq!(to_superscript_letter(26), "\u{1dbb}");
    assert_eq!(to_superscript_letter(0), "(0)");
    assert_eq!(to_superscript_letter(27), "(27)");
}

#[test]
fn clamp_moves_down_to_boundary() {
    let s = "a\u{e9}b"; // 'a' (1 byte), 'é' (2 bytes), 'b'
    assert_eq!(clamp_to_char_boundary(s, 0), 0);
    assert_eq!(clamp_to_char_boundary(s, 1), 1);
    assert_eq!(clamp_to_char_boundary(s, 2), 1);
    assert_eq!(clamp_to_char_boundary(s, 3), 3);
    assert_eq!(clamp_to_char_boundary(s, 4), 4);
    assert_eq!(clamp_to_char_boundary(s, 100), 4);
}

#[test]
fn snap_inside_word_goes_to_word_end() {
    let s = "In the beginning God";
    assert_eq!(snap_to_word_end(s, 9), 16);
    assert_eq!(snap_to_word_end(s, 1), 2);
}

#[test]
fn snap_on_whitespace_or_edges_stays() {
    let s = "In the beginning God";
    assert_eq!(snap_to_word_end(s, 2), 2);
    assert_eq!(snap_to_word_end(s, 3), 3);
    assert_eq!(snap_to_word_end(s, 0), 0);
    assert_eq!(snap_to_word_end(s, 20), 20);
    assert_eq!(snap_to_word_end(s, 99), 20);
    assert_eq!(snap_to_word_end(s, 18), 20);
}

#[test]
fn snap_leaves_punctuation_alone() {
    let s = "Hi, yo";
    assert_eq!(snap_to_word_end(s, 2), 2);
    assert_eq!(snap_to_word_end(s, 1), 3);
    assert_eq!(snap_to_word_end(s, 3), 3);
    assert_eq!(snap_to_word_end("earth.", 3), 6);
    assert_eq!(snap_to_word_end("God's", 2), 5);
    assert_eq!(snap_to_word_end("a,b c", 2), 3);
    assert_eq!(snap_to_word_end("ab,c d", 1), 4);
    assert_eq!(snap_to_word_end("ab,c d", 2), 2);
}

#[test]
fn snap_handles_multibyte_text() {
    let s = "caf\u{e9} noir";
    // offset 4 is inside the two bytes of 'é': clamped to 3, then moved to the word end (5)
    assert_eq!(snap_to_word_end(s, 4), 5);
}

#[test]
fn markers_sorted_stably() {
    let v = verse("abc def", vec![(5, "n1"), (1, "n2")], vec![(5, vec!["John 3:16"]), (0, vec![])]);
    let m = collect_footnote_markers(&v);
    let offsets: Vec<usize> = m.iter().map(|(o, _)| *o).collect();
    assert_eq!(offsets, vec![0, 1, 5, 5]);
    assert!(matches!(&m[0].1, FootnoteMarker::CrossRef(r) if r.is_empty()));
    assert!(matches!(&m[1].1, FootnoteMarker::Note(t) if t == "n2"));
    assert!(matches!(&m[2].1, FootnoteMarker::Note(t) if t == "n1"));
    assert!(matches!(&m[3].1, FootnoteMarker::CrossRef(r) if r == &vec!["John 3:16".to_string()]));
}

#[test]
fn segments_without_footnotes_is_whole_text() {
    let v = verse("In the beginning", vec![(3, "x")], vec![]);
    let segs = verse_segments(&v, false);
    assert_eq!(segs.len(), 1);
    assert!(matches!(&segs[0], VerseSegment::Text(t) if t == "In the beginning"));
    let plain = verse("Jesus wept.", vec![], vec![]);
    let segs = verse_segments(&plain, true);
    assert_eq!(segs.len(), 1);
    assert!(matches!(&segs[0], VerseSegment::Text(t) if t == "Jesus wept."));
}

#[test]
fn segments_place_markers_at_word_ends() {
    let v = verse("In the beginning God", vec![(9, "or, at first")], vec![(20, vec!["John 1:1"])]);
    let segs = verse_segments(&v, true);
    assert_eq!(segs.len(), 4);
    assert!(matches!(&segs[0], VerseSegment::Text(t) if t == "In the beginning"));
    match &segs[1] {
        VerseSegment::Marker { label, link: FootnoteLink::Note { number, text } } => {
            assert_eq!(label, "\u{b9}");
            assert_eq!(*number, 1);
            assert_eq!(text, "or, at first");
        }
        other => panic!("unexpected {:?}", other),
    }
    assert!(matches!(&segs[2], VerseSegment::Text(t) if t == " God"));
    match &segs[3] {
        VerseSegment::Marker { label, link: FootnoteLink::CrossRef { number, refs } } => {
            assert_eq!(label, "\u{1d43}");
            assert_eq!(*number, 1);
            assert_eq!(refs, &vec!["John 1:1".to_string()]);
        }
        other => panic!("unexpected {:?}", other),
    }
}

#[test]
fn segments_keep_the_whole_text() {
    let text = "In the beginning God created the heaven and the earth.";
    let v = verse(text, vec![(5, "or, at first"), (200, "end"), (17, "Elohim")], vec![(5, vec!["John 1:1"]), (0, vec!["Heb 11:3"])]);
    let segments = verse_segments(&v, true);
    let shown: String = segments
        .iter()
        .filter_map(|s| match s {
            VerseSegment::Text(t) => Some(t.as_str()),
            VerseSegment::Marker { .. } => None,
        })
        .collect();
    assert_eq!(shown, text);
    let markers = segments.iter().filter(|s| matches!(s, VerseSegment::Marker { .. })).count();
    assert_eq!(markers, 5);
}
