//! The reader's saved settings: place, bookmarks and copy options.

use vstd::prelude::*;

verus! {

/// A saved place: a chapter of a book, optionally a verse range, with an optional note.
#[derive(Clone, Debug, PartialEq, Eq)]
pub struct Bookmark {
    pub book_key: String,
    pub chapter: usize,
    pub verse_start: Option<usize>,
    pub verse_end: Option<usize>,
    pub label: Option<String>,
}

/// Where copied verses name their reference.
#[derive(Clone, Debug, PartialEq, Eq)]
pub enum CopyIncludeReferencePolicy {
    DoNot,
    Top,
    Bottom,
}

/// The saved settings.
#[derive(Debug, Clone, PartialEq, Eq)]
pub struct AppConfig {
    pub bible_index: usize,
    /// The installed Bible that was last read, by name.
    pub selected_bible: Option<String>,
    pub book_key: Option<String>,
    pub chapter: Option<usize>,
    pub bookmarks: Vec<Bookmark>,
    pub copy_includes_reference_policy: CopyIncludeReferencePolicy,
    pub copy_includes_verse_numbers: bool,
    pub copy_delimitate_with_newline: bool,
    pub show_footnotes: bool,
}

impl Default for AppConfig {
    /// No Bible, book or chapter chosen, no bookmarks; copies carry no
    /// reference and no verse numbers, one verse per line; footnotes shown.
    fn default() -> (r: Self)
        ensures
            r.bible_index == 0,
            r.selected_bible is None,
            r.book_key is None,
            r.chapter is None,
            r.bookmarks@.len() == 0,
            r.copy_includes_reference_policy == CopyIncludeReferencePolicy::DoNot,
            !r.copy_includes_verse_numbers,
            r.copy_delimitate_with_newline,
            r.show_footnotes,
    {
        AppConfig {
            bible_index: 0,
            selected_bible: None,
            book_key: None,
            chapter: None,
            bookmarks: Vec::new(),
            copy_includes_reference_policy: CopyIncludeReferencePolicy::DoNot,
            copy_includes_verse_numbers: false,
            copy_delimitate_with_newline: true,
            show_footnotes: true,
        }
    }
}

} // verus!
