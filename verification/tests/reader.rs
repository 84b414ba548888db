use charist::bibles::{BibleData, Book, Meta, Verse};
use charist::config::{AppConfig, Bookmark, CopyIncludeReferencePolicy};
use charist::state::{Action, AppState, Modal, ReferenceError, VersePopup};
use charist::update::bible::BibleMessage;
use charist::update::bookmark::BookmarkMessage;
use charist::update::reference::ReferenceMessage;
use charist::update::search::SearchMessage;
use charist::update::settings::SettingsMessage;
use charist::update::verse::VerseMessage;
use charist::update::Message;
use charist::footnotes::{FootnoteLink, VerseSegment};
use charist::view_model::{selected_book_position, selected_chapter_position, ChapterView};

fn plain(text: &str) -> Verse {
    Verse(text.to_string(), vec![], vec![])
}

fn book(name: &str, osis: &str, abbr: &str, chapters: Vec<Vec<&str>>) -> Book {
    Book {
        name: name.to_string(),
        osis_name: osis.to_string(),
        abbreviation: abbr.to_string(),
        chapters: chapters.into_iter().map(|c| c.into_iter().map(plain).collect()).collect(),
    }
}

fn sample_bible() -> BibleData {
    let john3: Vec<String> = (1..=17).map(|i| format!("John three verse {i}")).collect();
    let john3: Vec<&str> = john3.iter().map(|s| s.as_str()).collect();
    BibleData {
        meta: Meta { module: "TEST".to_string(), generated_at: "now".to_string() },
        book_order: vec!["gen".to_string(), "missing".to_string(), "john".to_string()],
        books: vec![
            (
                "gen".to_string(),
                book(
                    "Genesis",
                    "Gen",
                    "Gn",
                    vec![
                        vec!["In the beginning", "And the earth", "And God said"],
                        vec!["Thus the heavens", "And on the seventh day"],
                    ],
                ),
            ),
            ("john".to_string(), book("John", "John", "Jn", vec![vec!["In the beginning was the Word"], vec!["x"], john3])),
        ],
    }
}

fn state_with_bible() -> AppState {
    let mut s = AppState::new(AppConfig::default(), vec![]);
    s.bible = Some(sample_bible());
    s
}

#[test]
fn config_default_values() {
    let c = AppConfig::default();
    assert_eq!(c.bible_index, 0);
    assert_eq!(c.book_key, None);
    assert_eq!(c.chapter, None);
    assert!(c.bookmarks.is_empty());
    assert_eq!(c.copy_includes_reference_policy, CopyIncludeReferencePolicy::DoNot);
    assert!(!c.copy_includes_verse_numbers);
    assert!(c.copy_delimitate_with_newline);
    assert!(c.show_footnotes);
}

#[test]
fn submitted_reference_opens_chapter_and_selects_verses() {
    let mut s = state_with_bible();
    s.update(Message::Reference(ReferenceMessage::InputChanged("Gen 1:2-3".to_string())));
    assert!(matches!(s.update(Message::Reference(ReferenceMessage::Submitted)), Action::Nothing));
    assert_eq!(s.book_key.as_deref(), Some("gen"));
    assert_eq!(s.chapter, Some(1));
    assert_eq!(s.selected_verses, vec![2, 3]);
    assert_eq!(s.selection_anchor, Some(2));
    assert_eq!(s.reference_error, None);
}

#[test]
fn reference_matches_name_or_abbreviation_case_insensitively() {
    let mut s = state_with_bible();
    s.update(Message::Reference(ReferenceMessage::InputChanged("john 3:16".to_string())));
    s.update(Message::Reference(ReferenceMessage::Submitted));
    assert_eq!(s.book_key.as_deref(), Some("john"));
    assert_eq!(s.chapter, Some(3));
    assert_eq!(s.selected_verses, vec![16]);
}

#[test]
fn reference_errors_are_reported() {
    let mut s = AppState::new(AppConfig::default(), vec![]);
    s.update(Message::Reference(ReferenceMessage::InputChanged("Gen 1".to_string())));
    s.update(Message::Reference(ReferenceMessage::Submitted));
    assert_eq!(s.reference_error, Some(ReferenceError::PickBibleFirst));

    let mut s = state_with_bible();
    s.update(Message::Reference(ReferenceMessage::InputChanged("Exodus 1".to_string())));
    s.update(Message::Reference(ReferenceMessage::Submitted));
    assert_eq!(
        s.reference_error,
        Some(ReferenceError::NoBookMatching { query: "Exod".to_string(), module: "TEST".to_string() })
    );

    s.update(Message::Reference(ReferenceMessage::InputChanged("Gen 5".to_string())));
    s.update(Message::Reference(ReferenceMessage::Submitted));
    assert_eq!(s.reference_error, Some(ReferenceError::NoChapterInBook { book: "Genesis".to_string(), chapter: 5 }));

    s.update(Message::Reference(ReferenceMessage::InputChanged("Gen 0".to_string())));
    s.update(Message::Reference(ReferenceMessage::Submitted));
    assert_eq!(s.reference_error, Some(ReferenceError::NoChapterInBook { book: "Genesis".to_string(), chapter: 0 }));

    s.update(Message::Reference(ReferenceMessage::InputChanged("Gen 2:1-4".to_string())));
    s.update(Message::Reference(ReferenceMessage::Submitted));
    assert_eq!(
        s.reference_error,
        Some(ReferenceError::NotEnoughVerses { book: "Genesis".to_string(), chapter: 2, count: 2 })
    );
    assert_eq!(s.book_key, None);

    s.update(Message::Reference(ReferenceMessage::InputChanged("Gen 1:0-2".to_string())));
    s.update(Message::Reference(ReferenceMessage::Submitted));
    assert_eq!(s.reference_error, Some(ReferenceError::NoVerseZero { book: "Genesis".to_string(), chapter: 1 }));
    assert_eq!(s.book_key, None);
    assert!(s.selected_verses.is_empty());

    s.update(Message::Reference(ReferenceMessage::InputChanged("no such thing".to_string())));
    s.update(Message::Reference(ReferenceMessage::Submitted));
    assert_eq!(
        s.reference_error,
        Some(ReferenceError::CouldntUnderstand { reference: "no such thing".to_string() })
    );
    s.update(Message::Reference(ReferenceMessage::InputChanged("Gen".to_string())));
    assert_eq!(s.reference_error, None);
}

#[test]
fn reference_without_verses_clears_selection_and_end_before_start_is_lifted() {
    let mut s = state_with_bible();
    s.selected_verses = vec![1];
    s.selection_anchor = Some(1);
    s.modal = Some(Modal::Settings);
    s.update(Message::Reference(ReferenceMessage::CrossRefClicked("Genesis 2".to_string())));
    assert_eq!(s.chapter, Some(2));
    assert!(s.selected_verses.is_empty());
    assert_eq!(s.selection_anchor, None);
    assert!(s.modal.is_none());
    s.update(Message::Reference(ReferenceMessage::CrossRefClicked("Gen 1:3-2".to_string())));
    assert_eq!(s.selected_verses, vec![3]);
}

#[test]
fn clicking_and_shift_clicking_select_ranges() {
    let mut s = state_with_bible();
    s.update(Message::Verse(VerseMessage::Clicked(5)));
    assert_eq!(s.selected_verses, vec![5]);
    s.update(Message::ModifiersChanged { shift: true });
    s.update(Message::Verse(VerseMessage::Clicked(2)));
    assert_eq!(s.selected_verses, vec![2, 3, 4, 5]);
    assert_eq!(s.selection_anchor, Some(5));
    s.update(Message::Verse(VerseMessage::Clicked(7)));
    assert_eq!(s.selected_verses, vec![5, 6, 7]);
    s.update(Message::ModifiersChanged { shift: false });
    s.update(Message::Verse(VerseMessage::Clicked(9)));
    assert_eq!(s.selected_verses, vec![9]);
    assert_eq!(s.selection_anchor, Some(9));
}

#[test]
fn right_click_keeps_selection_containing_verse() {
    let mut s = state_with_bible();
    s.selected_verses = vec![2, 3];
    s.selection_anchor = Some(2);
    s.update(Message::Verse(VerseMessage::RightClicked(3)));
    assert_eq!(s.selected_verses, vec![2, 3]);
    assert!(matches!(s.verse_popup, Some((3, VersePopup::Menu))));
    s.update(Message::Verse(VerseMessage::RightClicked(1)));
    assert_eq!(s.selected_verses, vec![1]);
    s.update(Message::Verse(VerseMessage::OpenNoteInput));
    assert!(matches!(&s.verse_popup, Some((1, VersePopup::Note(t))) if t.is_empty()));
    s.update(Message::Verse(VerseMessage::NoteTextChanged("my note".to_string())));
    assert!(matches!(&s.verse_popup, Some((1, VersePopup::Note(t))) if t == "my note"));
    s.update(Message::Verse(VerseMessage::ClosePopup));
    assert!(s.verse_popup.is_none());
    s.update(Message::Verse(VerseMessage::NoteTextChanged("ignored".to_string())));
    assert!(s.verse_popup.is_none());
}

fn copy(s: &mut AppState) -> Option<String> {
    match s.update(Message::Verse(VerseMessage::CopySelection)) {
        Action::CopyText(t) => Some(t),
        Action::Nothing => None,
        other => panic!("unexpected {:?}", other),
    }
}

#[test]
fn copying_formats_follow_settings() {
    let mut s = state_with_bible();
    assert_eq!(copy(&mut s), None);
    s.book_key = Some("gen".to_string());
    s.chapter = Some(1);
    s.selected_verses = vec![1, 2];
    assert_eq!(copy(&mut s).as_deref(), Some("In the beginning\nAnd the earth"));
    s.config.copy_delimitate_with_newline = false;
    s.config.copy_includes_verse_numbers = true;
    assert_eq!(copy(&mut s).as_deref(), Some("1 In the beginning 2 And the earth"));
    s.config.copy_includes_reference_policy = CopyIncludeReferencePolicy::Top;
    assert_eq!(copy(&mut s).as_deref(), Some("Genesis 1:1-2\n1 In the beginning 2 And the earth"));
    s.config.copy_includes_reference_policy = CopyIncludeReferencePolicy::Bottom;
    s.selected_verses = vec![3];
    assert_eq!(copy(&mut s).as_deref(), Some("3 And God said\nGenesis 1:3"));
    s.selected_verses = vec![3, 4, 5];
    assert_eq!(copy(&mut s).as_deref(), Some("3 And God said\nGenesis 1:3-5"));
    s.chapter = Some(0);
    assert_eq!(copy(&mut s), None);
}

#[test]
fn footnote_toggles() {
    let mut s = state_with_bible();
    s.update(Message::Verse(VerseMessage::FootnoteClicked(FootnoteLink::Note { number: 1, text: "n".to_string() })));
    assert!(matches!(s.modal, Some(Modal::Footnote(_))));
    s.update(Message::Verse(VerseMessage::ToggleFootnotes(true)));
    assert!(s.modal.is_some());
    s.update(Message::Verse(VerseMessage::ToggleFootnotes(false)));
    assert!(s.modal.is_none());
    assert!(!s.config.show_footnotes);
}

#[test]
fn bookmarks_add_jump_and_remove() {
    let mut s = state_with_bible();
    s.update(Message::Bookmark(BookmarkMessage::Add));
    assert!(s.config.bookmarks.is_empty());
    s.book_key = Some("gen".to_string());
    s.chapter = Some(1);
    s.selected_verses = vec![2, 3];
    s.update(Message::Bookmark(BookmarkMessage::Add));
    assert_eq!(
        s.config.bookmarks,
        vec![Bookmark { book_key: "gen".to_string(), chapter: 1, verse_start: Some(2), verse_end: Some(3), label: None }]
    );
    s.verse_popup = Some((2, VersePopup::Note("  ".to_string())));
    s.selected_verses = vec![];
    s.update(Message::Bookmark(BookmarkMessage::SaveNote));
    assert_eq!(s.config.bookmarks[1].label, None);
    assert_eq!(s.config.bookmarks[1].verse_start, None);
    s.verse_popup = Some((2, VersePopup::Note("read again".to_string())));
    s.update(Message::Bookmark(BookmarkMessage::SaveNote));
    assert_eq!(s.config.bookmarks[2].label.as_deref(), Some("read again"));
    assert!(s.verse_popup.is_none());

    s.book_key = Some("john".to_string());
    s.chapter = Some(3);
    s.modal = Some(Modal::Bookmarks);
    s.update(Message::Bookmark(BookmarkMessage::JumpTo(0)));
    assert_eq!(s.book_key.as_deref(), Some("gen"));
    assert_eq!(s.chapter, Some(1));
    assert_eq!(s.selected_verses, vec![2, 3]);
    assert_eq!(s.selection_anchor, Some(2));
    assert!(s.modal.is_none());
    s.update(Message::Bookmark(BookmarkMessage::JumpTo(1)));
    assert!(s.selected_verses.is_empty());
    s.update(Message::Bookmark(BookmarkMessage::JumpTo(99)));
    assert_eq!(s.book_key.as_deref(), Some("gen"));

    s.update(Message::Bookmark(BookmarkMessage::Remove(0)));
    assert_eq!(s.config.bookmarks.len(), 2);
    s.update(Message::Bookmark(BookmarkMessage::Remove(5)));
    assert_eq!(s.config.bookmarks.len(), 2);
}

#[test]
fn bookmark_dialog_toggles() {
    let mut s = state_with_bible();
    s.update(Message::Bookmark(BookmarkMessage::Toggle));
    assert!(matches!(s.modal, Some(Modal::Bookmarks)));
    s.update(Message::Bookmark(BookmarkMessage::Toggle));
    assert!(s.modal.is_none());
    s.modal = Some(Modal::Settings);
    s.update(Message::Bookmark(BookmarkMessage::Toggle));
    assert!(matches!(s.modal, Some(Modal::Bookmarks)));
}

#[test]
fn settings_change_and_are_saved() {
    let mut s = state_with_bible();
    s.book_key = Some("john".to_string());
    s.chapter = Some(2);
    assert!(matches!(s.update(Message::Settings(SettingsMessage::ToggleCopyVerseNumbers(true))), Action::SaveConfig));
    assert!(s.config.copy_includes_verse_numbers);
    assert_eq!(s.config.book_key.as_deref(), Some("john"));
    assert_eq!(s.config.chapter, Some(2));
    s.update(Message::Settings(SettingsMessage::ToggleCopyDelimiter(false)));
    assert!(!s.config.copy_delimitate_with_newline);
    s.update(Message::Settings(SettingsMessage::SetCopyReferencePolicy(CopyIncludeReferencePolicy::Top)));
    assert_eq!(s.config.copy_includes_reference_policy, CopyIncludeReferencePolicy::Top);
    s.update(Message::Settings(SettingsMessage::Toggle));
    assert!(matches!(s.modal, Some(Modal::Settings)));
    s.update(Message::Settings(SettingsMessage::Toggle));
    assert!(s.modal.is_none());
    assert!(matches!(s.update(Message::WindowCloseRequested), Action::SaveConfig));
}

#[test]
fn search_dialog_and_result_clicks() {
    let mut s = state_with_bible();
    s.search_query = "old".to_string();
    assert!(matches!(s.update(Message::Search(SearchMessage::Toggle)), Action::FocusSearchInput));
    assert!(matches!(s.modal, Some(Modal::Search)));
    assert!(s.search_query.is_empty());
    s.update(Message::Search(SearchMessage::QueryChanged("word".to_string())));
    assert_eq!(s.search_query, "word");
    assert!(matches!(s.update(Message::Search(SearchMessage::Toggle)), Action::Nothing));
    assert!(s.modal.is_none());
    s.update(Message::Search(SearchMessage::ResultClicked { book_key: "john".to_string(), chapter: 1, verse: 1 }));
    assert_eq!(s.book_key.as_deref(), Some("john"));
    assert_eq!(s.selected_verses, vec![1]);
    s.update(Message::Search(SearchMessage::ResultClicked { book_key: "nope".to_string(), chapter: 4, verse: 4 }));
    assert_eq!(s.chapter, Some(1));
    assert!(s.search_results().is_empty());
}

#[test]
fn bible_messages_and_their_follow_ups() {
    let mut s = state_with_bible();
    assert!(matches!(s.update(Message::Bible(BibleMessage::SelectBookIndex(2))), Action::Nothing));
    assert_eq!(s.book_key.as_deref(), Some("john"));
    assert_eq!(s.chapter, None);
    s.update(Message::Bible(BibleMessage::SelectBookIndex(7)));
    assert_eq!(s.book_key.as_deref(), Some("john"));
    s.selected_verses = vec![4];
    s.update(Message::Bible(BibleMessage::SelectChapterIndex(2)));
    assert_eq!(s.chapter, Some(3));
    assert!(s.selected_verses.is_empty());

    assert!(matches!(s.update(Message::Bible(BibleMessage::FetchCatalog)), Action::FetchCatalog));
    assert!(s.catalog_loading);
    s.update(Message::Bible(BibleMessage::CatalogLoaded(Err("offline".to_string()))));
    assert!(!s.catalog_loading);
    assert_eq!(s.download_error.as_deref(), Some("offline"));
    s.update(Message::Bible(BibleMessage::CatalogLoaded(Ok(vec![]))));
    assert!(s.remote_catalog.is_some());

    match s.update(Message::Bible(BibleMessage::Download("KJV".to_string(), "http://x/kjv.cbor".to_string()))) {
        Action::DownloadBible { name, url } => {
            assert_eq!(name, "KJV");
            assert_eq!(url, "http://x/kjv.cbor");
        }
        other => panic!("unexpected {:?}", other),
    }
    assert_eq!(s.downloading.as_deref(), Some("KJV"));
    s.update(Message::Bible(BibleMessage::DownloadFinished("KJV".to_string(), Err("404".to_string()))));
    assert_eq!(s.downloading, None);
    assert_eq!(s.download_error.as_deref(), Some("failed to library 'KJV': 404"));
    assert!(matches!(
        s.update(Message::Bible(BibleMessage::DownloadFinished("KJV".to_string(), Ok(())))),
        Action::RefreshInstalled
    ));
    assert!(matches!(s.update(Message::Bible(BibleMessage::SelectInstalled("KJV".to_string()))), Action::LoadBible(n) if n == "KJV"));
    assert!(matches!(s.update(Message::Bible(BibleMessage::Delete("KJV".to_string()))), Action::DeleteBible(n) if n == "KJV"));
}

#[test]
fn loading_and_deleting_bibles() {
    let mut s = AppState::new(AppConfig::default(), vec![]);
    assert!(s.bible_loaded("KJV".to_string(), None).is_err());
    assert!(s.bible.is_none());
    assert!(s.bible_loaded("KJV".to_string(), Some(sample_bible())).is_ok());
    assert!(s.bible.is_some());
    assert!(s.bible_index.is_some());
    assert_eq!(s.config.selected_bible.as_deref(), Some("KJV"));

    s.bible_deleted("OTHER".to_string(), Some("busy".to_string()), vec![]);
    assert!(s.bible.is_some());
    assert_eq!(s.download_error.as_deref(), Some("failed to delete 'OTHER': busy"));
    s.book_key = Some("gen".to_string());
    s.bible_deleted("KJV".to_string(), None, vec![]);
    assert!(s.bible.is_none());
    assert!(s.bible_index.is_none());
    assert_eq!(s.book_key, None);
    assert_eq!(s.config.selected_bible, None);
}

#[test]
fn start_up_restores_the_last_place() {
    let mut config = AppConfig::default();
    config.book_key = Some("gen".to_string());
    config.chapter = Some(2);
    config.selected_bible = Some("KJV".to_string());
    let s = AppState::new(config.clone(), vec![]);
    assert_eq!(s.initial_bible(), None);
    let mut s = AppState::new(config, vec![]);
    s.restore_bible("KJV".to_string(), Some(sample_bible()));
    assert_eq!(s.book_key.as_deref(), Some("gen"));
    assert_eq!(s.chapter, Some(2));
    let mut config = AppConfig::default();
    config.book_key = Some("gen".to_string());
    config.chapter = Some(9);
    let mut s = AppState::new(config, vec![]);
    s.restore_bible("KJV".to_string(), Some(sample_bible()));
    assert_eq!(s.book_key, None);
    assert!(s.bible.is_some());
}

#[test]
fn simple_messages() {
    let mut s = state_with_bible();
    assert!(matches!(s.update(Message::FocusInput), Action::FocusReferenceInput));
    s.update(Message::OpenModal(Modal::BibleManagement));
    assert!(matches!(s.modal, Some(Modal::BibleManagement)));
    s.update(Message::CloseModal);
    assert!(s.modal.is_none());
    let mut c = AppConfig::default();
    c.show_footnotes = false;
    s.update(Message::UpdateConfig(c));
    assert!(!s.config.show_footnotes);
    assert!(matches!(s.update(Message::NoOp), Action::Nothing));
}

#[test]
fn toggling_a_dialog_twice_restores_the_reader() {
    let mut s = state_with_bible();
    s.book_key = Some("gen".to_string());
    s.chapter = Some(1);
    s.selected_verses = vec![2];
    s.verse_popup = Some((2, VersePopup::Menu));
    s.search_query = "earth".to_string();
    assert!(matches!(s.update(Message::Search(SearchMessage::Toggle)), Action::FocusSearchInput));
    assert!(matches!(s.update(Message::Search(SearchMessage::Toggle)), Action::Nothing));
    assert!(s.modal.is_none());
    assert!(s.verse_popup.is_none());
    assert!(s.search_query.is_empty());
    assert_eq!(s.selected_verses, vec![2]);
    assert_eq!(s.book_key.as_deref(), Some("gen"));
    s.update(Message::Bookmark(BookmarkMessage::Toggle));
    assert!(matches!(s.update(Message::Bookmark(BookmarkMessage::Toggle)), Action::Nothing));
    assert!(s.modal.is_none());
    assert_eq!(s.chapter, Some(1));
}

#[test]
fn chapter_view_rows_and_notices() {
    let mut s = state_with_bible();
    assert!(matches!(s.chapter_view(), ChapterView::ChooseChapter));
    s.book_key = Some("missing".to_string());
    s.chapter = Some(1);
    assert!(matches!(s.chapter_view(), ChapterView::UnknownBook));
    s.book_key = Some("gen".to_string());
    s.chapter = Some(3);
    assert!(matches!(s.chapter_view(), ChapterView::UnknownChapter));
    s.chapter = Some(0);
    assert!(matches!(s.chapter_view(), ChapterView::UnknownChapter));
    s.chapter = Some(1);
    s.selected_verses = vec![2, 3];
    s.verse_popup = Some((3, VersePopup::Menu));
    match s.chapter_view() {
        ChapterView::Verses(rows) => {
            assert_eq!(rows.len(), 3);
            let flags: Vec<(usize, bool, bool)> = rows.iter().map(|r| (r.number, r.selected, r.popup_open)).collect();
            assert_eq!(flags, vec![(1, false, false), (2, true, false), (3, true, true)]);
            assert!(matches!(&rows[1].segments[..], [VerseSegment::Text(t)] if t == "And the earth"));
        }
        other => panic!("unexpected {other:?}"),
    }
}

#[test]
fn removing_the_new_bookmark_undoes_adding_it() {
    let mut s = state_with_bible();
    s.config.bookmarks = vec![Bookmark { book_key: "john".to_string(), chapter: 3, verse_start: None, verse_end: None, label: Some("old".to_string()) }];
    let before = s.config.bookmarks.clone();
    s.book_key = Some("gen".to_string());
    s.chapter = Some(2);
    s.update(Message::Bookmark(BookmarkMessage::Add));
    assert_eq!(s.config.bookmarks.len(), 2);
    s.update(Message::Bookmark(BookmarkMessage::Remove(1)));
    assert_eq!(s.config.bookmarks, before);
}

#[test]
fn dropdowns_mark_the_open_book_and_chapter() {
    let mut s = state_with_bible();
    s.book_key = Some("john".to_string());
    s.chapter = Some(3);
    let book_pos = selected_book_position(s.bible.as_ref().unwrap(), &s.book_key).unwrap();
    assert_eq!(book_pos, 2);
    s.update(Message::Bible(BibleMessage::SelectBookIndex(book_pos)));
    assert_eq!(s.book_key.as_deref(), Some("john"));
    s.chapter = Some(3);
    let chapter_pos = selected_chapter_position(s.chapter).unwrap();
    s.update(Message::Bible(BibleMessage::SelectChapterIndex(chapter_pos)));
    assert_eq!(s.chapter, Some(3));
}

#[test]
fn installed_rows_mark_the_chosen_bible() {
    let installed = vec![
        charist::library::library::InstalledBible { name: "KJV".to_string(), path: std::path::PathBuf::from("/x/KJV.cbor") },
        charist::library::library::InstalledBible { name: "WEB".to_string(), path: std::path::PathBuf::from("/x/WEB.cbor") },
    ];
    let mut config = AppConfig::default();
    config.selected_bible = Some("WEB".to_string());
    let s = AppState::new(config, installed);
    let rows = s.installed_rows();
    assert_eq!(rows.len(), 2);
    assert_eq!(rows[0].name, "KJV");
    assert!(!rows[0].current);
    assert!(matches!(&rows[0].select, Some(Message::Bible(BibleMessage::SelectInstalled(n))) if n == "KJV"));
    assert!(matches!(&rows[0].delete, Message::Bible(BibleMessage::Delete(n)) if n == "KJV"));
    assert!(rows[1].current);
    assert!(rows[1].select.is_none());
    assert!(matches!(&rows[1].delete, Message::Bible(BibleMessage::Delete(n)) if n == "WEB"));
}
