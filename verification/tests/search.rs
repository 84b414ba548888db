use charist::bibles::{BibleData, Book, Meta, Verse};
use charist::config::{AppConfig, Bookmark, CopyIncludeReferencePolicy};
use charist::library::catalog::IndexedBible;
use charist::search_index::{
    index_documents, result_for_document, results_for_ids, search_results, BibleIndex, IndexDocument, SearchResult,
};
use charist::state::AppState;
use charist::update::search::SearchMessage;
use charist::update::verse::VerseMessage;
use charist::update::Message;
use charist::update::bible::BibleMessage;
use charist::view_model::{
    book_options, catalog_entry_state, CatalogEntryState, bookmark_label, chapter_options, download_url, place_text, policy_at, policy_position,
    position_in, search_result_label, selected_book_position, selected_chapter_position, shortcut_message,
};

fn sample_bible() -> BibleData {
    let v = |t: &str| Verse(t.to_string(), vec![], vec![]);
    BibleData {
        meta: Meta { module: "TEST".to_string(), generated_at: "now".to_string() },
        book_order: vec!["gen".to_string(), "rev".to_string()],
        books: vec![
            (
                "rev".to_string(),
                Book {
                    name: "Revelation".to_string(),
                    osis_name: "Rev".to_string(),
                    abbreviation: "Re".to_string(),
                    chapters: vec![vec![v("The Revelation of Jesus Christ")], vec![v("Babylon the great is fallen, is fallen")]],
                },
            ),
            (
                "gen".to_string(),
                Book {
                    name: "Genesis".to_string(),
                    osis_name: "Gen".to_string(),
                    abbreviation: "Gn".to_string(),
                    chapters: vec![vec![v("In the beginning God created the heaven and the earth."), v("And the earth was without form")]],
                },
            ),
        ],
    }
}

#[test]
fn one_document_per_verse_in_book_order() {
    let docs = index_documents(&sample_bible());
    let seen: Vec<(String, String, u64, u64)> =
        docs.iter().map(|d| (d.book_key.clone(), d.book_name.clone(), d.chapter, d.verse)).collect();
    assert_eq!(
        seen,
        vec![
            ("gen".to_string(), "Genesis".to_string(), 1, 1),
            ("gen".to_string(), "Genesis".to_string(), 1, 2),
            ("rev".to_string(), "Revelation".to_string(), 1, 1),
            ("rev".to_string(), "Revelation".to_string(), 2, 1),
        ]
    );
    assert_eq!(docs[3].text, "Babylon the great is fallen, is fallen");
}

#[test]
fn search_finds_verses() {
    let index = BibleIndex::build(&sample_bible()).expect("index builds");
    let results = search_results(&index, "babylon fallen");
    assert_eq!(results.len(), 1);
    assert_eq!(results[0].book_key, "rev");
    assert_eq!(results[0].book_name, "Revelation");
    assert_eq!((results[0].chapter, results[0].verse), (2, 1));
    assert_eq!(results[0].snippet, "Babylon the great is fallen, is fallen");
    assert!(search_results(&index, "zebra").is_empty());
    assert!(search_results(&index, "\"unclosed").len() <= 100);
    let earth = search_results(&index, "earth");
    assert_eq!(earth.len(), 2);
}

#[test]
fn state_search_uses_trimmed_query() {
    let mut s = AppState::new(AppConfig::default(), vec![]);
    s.bible_loaded("T".to_string(), Some(sample_bible())).unwrap();
    s.update(Message::Search(SearchMessage::QueryChanged("   ".to_string())));
    assert!(s.search_results().is_empty());
    s.update(Message::Search(SearchMessage::QueryChanged("  beginning ".to_string())));
    let r = s.search_results();
    assert_eq!(r.len(), 1);
    assert_eq!(search_result_label(&r[0]), "Genesis 1:1");
}

#[test]
fn a_result_carries_its_document() {
    let d = IndexDocument {
        book_key: "gen".to_string(),
        book_name: "Genesis".to_string(),
        chapter: 1,
        verse: 4,
        text: "And God saw the light".to_string(),
    };
    let r: SearchResult = result_for_document(&d);
    assert_eq!(r.book_key, "gen");
    assert_eq!(r.book_name, "Genesis");
    assert_eq!((r.chapter, r.verse), (1, 4));
    assert_eq!(r.snippet, "And God saw the light");
}

#[test]
fn bad_queries_find_nothing_and_results_do_not_repeat() {
    let index = BibleIndex::build(&sample_bible()).expect("index builds");
    assert!(search_results(&index, "nosuchfield:earth").is_empty());
    let r = search_results(&index, "earth OR earth OR beginning");
    let mut places: Vec<(String, usize, usize)> = r.iter().map(|x| (x.book_key.clone(), x.chapter, x.verse)).collect();
    let n = places.len();
    places.sort();
    places.dedup();
    assert_eq!(places.len(), n);
    assert_eq!(n, 2);
}

#[test]
fn view_labels_and_options() {
    let bible = sample_bible();
    let bm = |s: Option<usize>, e: Option<usize>| Bookmark {
        book_key: "gen".to_string(),
        chapter: 1,
        verse_start: s,
        verse_end: e,
        label: None,
    };
    let some = Some(bible.clone());
    assert_eq!(bookmark_label(&some, &bm(Some(2), Some(2))), "Genesis 1:2");
    assert_eq!(bookmark_label(&some, &bm(Some(2), Some(5))), "Genesis 1:2-5");
    assert_eq!(bookmark_label(&some, &bm(None, None)), "Genesis 1");
    assert_eq!(bookmark_label(&None, &bm(Some(1), None)), "gen 1");
    assert_eq!(place_text("Ps", 23, Some(1), None), "Ps 23:1");
    assert_eq!(book_options(&bible), vec!["Genesis".to_string(), "Revelation".to_string()]);
    assert_eq!(position_in(&bible.book_order, "rev"), Some(1));
    assert_eq!(selected_book_position(&bible, &Some("gen".to_string())), Some(0));
    assert_eq!(selected_book_position(&bible, &None), None);
    assert_eq!(chapter_options(&bible.books[0].1), vec!["1".to_string(), "2".to_string()]);
    assert_eq!(selected_chapter_position(Some(3)), Some(2));
    for p in [CopyIncludeReferencePolicy::DoNot, CopyIncludeReferencePolicy::Top, CopyIncludeReferencePolicy::Bottom] {
        assert_eq!(policy_at(policy_position(&p)), p);
    }
    assert_eq!(policy_at(9), CopyIncludeReferencePolicy::DoNot);
    let entry = IndexedBible {
        name: "KJV".to_string(),
        long_name: "King James".to_string(),
        description: "1611".to_string(),
        download_links: vec!["https://a".to_string(), "https://b".to_string()],
    };
    assert_eq!(download_url(&entry), "https://a");
    assert_eq!(download_url(&IndexedBible { download_links: vec![], ..entry }), "");
}

#[test]
fn shortcuts() {
    assert!(matches!(shortcut_message(true, 'c'), Some(Message::Verse(VerseMessage::CopySelection))));
    assert!(matches!(shortcut_message(true, 'f'), Some(Message::Search(SearchMessage::Toggle))));
    assert!(shortcut_message(false, 'c').is_none());
    assert!(shortcut_message(true, 'x').is_none());
}

#[test]
fn cross_reference_preview() {
    let mut s = AppState::new(AppConfig::default(), vec![]);
    assert_eq!(s.preview_for_reference("Gen 1:1"), None);
    s.bible = Some(sample_bible());
    assert_eq!(
        s.preview_for_reference("Gen 1:1"),
        Some(("Genesis 1:1".to_string(), "In the beginning God created the heaven and the earth.".to_string()))
    );
    assert_eq!(
        s.preview_for_reference("Rev 2:1-3"),
        Some(("Revelation 2:1-3".to_string(), "Babylon the great is fallen, is fallen".to_string()))
    );
    assert_eq!(
        s.preview_for_reference("Rev 2"),
        Some(("Revelation 2".to_string(), "Babylon the great is fallen, is fallen".to_string()))
    );
    assert_eq!(s.preview_for_reference("Gen 1:9"), None);
    assert_eq!(s.preview_for_reference("Gen 3"), None);
    assert_eq!(s.preview_for_reference("Exod 1"), None);
    assert_eq!(s.preview_for_reference("???"), None);
}

#[test]
fn catalog_entry_offers_download_from_first_link() {
    let entry = IndexedBible {
        name: "WEB".to_string(),
        long_name: "World English Bible".to_string(),
        description: "".to_string(),
        download_links: vec!["https://example.org/web.cbor".to_string(), "https://mirror/web.cbor".to_string()],
    };
    assert!(matches!(catalog_entry_state(&entry, true, &None), CatalogEntryState::Installed));
    assert!(matches!(
        catalog_entry_state(&entry, false, &Some("WEB".to_string())),
        CatalogEntryState::Downloading
    ));
    match catalog_entry_state(&entry, false, &Some("KJV".to_string())) {
        CatalogEntryState::Available(Message::Bible(BibleMessage::Download(name, url))) => {
            assert_eq!(name, "WEB");
            assert_eq!(url, "https://example.org/web.cbor");
        }
        other => panic!("unexpected {other:?}"),
    }
}

#[test]
fn stored_positions_become_results_in_order_once_each() {
    let index = BibleIndex::build(&sample_bible()).expect("index builds");
    let r = results_for_ids(&index, &vec![Some(3), None, Some(99), Some(3), Some(0)]);
    let places: Vec<(&str, usize, usize)> = r.iter().map(|x| (x.book_key.as_str(), x.chapter, x.verse)).collect();
    assert_eq!(places, vec![("rev", 2, 1), ("gen", 1, 1)]);
    assert_eq!(r[0].snippet, "Babylon the great is fallen, is fallen");
    assert!(results_for_ids(&index, &vec![]).is_empty());
}

#[test]
fn search_finds_the_one_matching_verse() {
    let v = |t: &str| Verse(t.to_string(), vec![], vec![]);
    let b = BibleData {
        meta: Meta { module: "T".to_string(), generated_at: "".to_string() },
        book_order: vec!["Gen".to_string()],
        books: vec![(
            "Gen".to_string(),
            Book {
                name: "Genesis".to_string(),
                osis_name: "Gen".to_string(),
                abbreviation: "Gn".to_string(),
                chapters: vec![vec![v("light"), v("earth")]],
            },
        )],
    };
    let index = BibleIndex::build(&b).expect("index builds");
    let r = search_results(&index, "earth");
    assert_eq!(r.len(), 1);
    assert_eq!((r[0].book_key.as_str(), r[0].book_name.as_str(), r[0].chapter, r[0].verse), ("Gen", "Genesis", 1, 2));
    assert_eq!(r[0].snippet, "earth");
}
