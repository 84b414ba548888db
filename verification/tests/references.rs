use charist::references::{lookup_book_alias, normalize_book_key, parse_reference, reference_from_captures, Reference};

fn r(book: &str, chapter: Option<usize>, start: Option<usize>, end: Option<usize>) -> Option<Reference> {
    Some(Reference { osis_book: book.to_string(), chapter, start_verse: start, end_verse: end })
}

#[test]
fn parses_book_chapter_verse() {
    assert_eq!(parse_reference("John 3:16"), r("John", Some(3), Some(16), None));
}

#[test]
fn parses_verse_ranges_with_any_dash() {
    assert_eq!(parse_reference("Gen 1:1-5"), r("Gen", Some(1), Some(1), Some(5)));
    assert_eq!(parse_reference("Gen 1:1\u{2013}5"), r("Gen", Some(1), Some(1), Some(5)));
    assert_eq!(parse_reference("Gen 1.1\u{2014}5"), r("Gen", Some(1), Some(1), Some(5)));
}

#[test]
fn parses_numbered_books_and_chapters_only() {
    assert_eq!(parse_reference("1 Cor 13"), r("1Cor", Some(13), None, None));
    assert_eq!(parse_reference("1John 1:9"), r("1John", Some(1), Some(9), None));
    assert_eq!(parse_reference("Romans 8"), r("Rom", Some(8), None, None));
    assert_eq!(parse_reference("  romans 8  "), r("Rom", Some(8), None, None));
}

#[test]
fn parses_book_alone_and_long_names() {
    assert_eq!(parse_reference("Apocalypse"), r("Rev", None, None, None));
    assert_eq!(parse_reference("Song of Solomon 2:1"), r("Song", Some(2), Some(1), None));
    assert_eq!(parse_reference("PS. 23"), r("Ps", Some(23), None, None));
}

#[test]
fn rejects_unknown_books_and_garbage() {
    assert_eq!(parse_reference("Hezekiah 3:16"), None);
    assert_eq!(parse_reference(""), None);
    assert_eq!(parse_reference("3:16"), None);
    assert_eq!(parse_reference("John 3:16 and more"), None);
}

#[test]
fn numbers_too_large_are_left_out() {
    assert_eq!(
        parse_reference("John 99999999999999999999999:1"),
        r("John", None, Some(1), None)
    );
}

#[test]
fn alias_lookup_and_normalization() {
    assert_eq!(lookup_book_alias("gen"), Some("Gen"));
    assert_eq!(lookup_book_alias("firstcorinthians"), Some("1Cor"));
    assert_eq!(lookup_book_alias("canticles"), Some("Song"));
    assert_eq!(lookup_book_alias("Gen"), None);
    assert_eq!(normalize_book_key("Song of Solomon"), "songofsolomon");
    assert_eq!(normalize_book_key("1 Sam."), "1sam");
}

#[test]
fn captures_are_turned_into_references() {
    assert_eq!(reference_from_captures(None), None);
    let groups = vec![
        Some("Mark 4:3".to_string()),
        Some("Mark".to_string()),
        Some("4".to_string()),
        Some("3".to_string()),
        None,
    ];
    assert_eq!(reference_from_captures(Some(groups)), r("Mark", Some(4), Some(3), None));
    let loose = vec![
        Some("x".to_string()),
        Some("Mark".to_string()),
        None,
        Some("3".to_string()),
        Some("5".to_string()),
    ];
    assert_eq!(reference_from_captures(Some(loose)), r("Mark", None, None, None));
    let no_start = vec![
        Some("x".to_string()),
        Some("Mark".to_string()),
        Some("4".to_string()),
        None,
        Some("5".to_string()),
    ];
    assert_eq!(reference_from_captures(Some(no_start)), r("Mark", Some(4), None, None));
    let no_book = vec![Some("x".to_string()), None];
    assert_eq!(reference_from_captures(Some(no_book)), None);
    let short = vec![Some("x".to_string())];
    assert_eq!(reference_from_captures(Some(short)), None);
}
