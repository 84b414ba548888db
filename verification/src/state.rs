//! The reader's state and the effects that its decisions ask for; every field
//! has a plain view so that each decision can be stated exactly.

use vstd::prelude::*;
use crate::bibles::BibleData;
use crate::config::{AppConfig, Bookmark, CopyIncludeReferencePolicy};
use crate::footnotes::{FootnoteLink, LinkView};
use crate::library::catalog::BibleCatalog;
use crate::library::library::InstalledBible;
use crate::search_index::BibleIndex;

verus! {

/// The dialog that covers the verses.
#[derive(Debug)]
pub enum Modal {
    Footnote(FootnoteLink),
    Bookmarks,
    Settings,
    Search,
    BibleManagement,
}

/// The popup next to a verse: its menu, or the note being written for a bookmark.
#[derive(Debug)]
pub enum VersePopup {
    Menu,
    Note(String),
}

/// Why a reference could not be shown.
#[derive(Debug, PartialEq, Eq)]
pub enum ReferenceError {
    /// No Bible is loaded.
    PickBibleFirst,
    /// The loaded Bible (`module`) has no book that `query` names.
    NoBookMatching { query: String, module: String },
    /// The book has no chapter with this number.
    NoChapterInBook { book: String, chapter: usize },
    /// The chapter has `count` verses, fewer than the reference asks for.
    NotEnoughVerses { book: String, chapter: usize, count: usize },
    /// The reference starts at verse 0; verses are numbered from one.
    NoVerseZero { book: String, chapter: usize },
    /// The text is not a reference.
    CouldntUnderstand { reference: String },
}

/// What the application has to do after a decision.
#[derive(Debug)]
pub enum Action {
    /// Nothing.
    Nothing,
    /// Give the keyboard focus to the reference input.
    FocusReferenceInput,
    /// Give the keyboard focus to the search input.
    FocusSearchInput,
    /// Fetch the catalog of Bibles, then report it with `BibleMessage::CatalogLoaded`.
    FetchCatalog,
    /// Download a Bible to disk, then report with `BibleMessage::DownloadFinished`.
    DownloadBible { name: String, url: String },
    /// Read the named Bible from disk and pass it to `AppState::bible_loaded`.
    LoadBible(String),
    /// Delete the named Bible from disk, then pass the outcome and the
    /// installed Bibles to `AppState::bible_deleted`.
    DeleteBible(String),
    /// List the installed Bibles and pass them to `AppState::set_installed`.
    RefreshInstalled,
    /// Put the text on the clipboard.
    CopyText(String),
    /// Write the configuration to disk.
    SaveConfig,
}

/// Everything the reader decides on, apart from what only the interface holds.
pub struct AppState {
    pub config: AppConfig,
    pub installed_bibles: Vec<InstalledBible>,
    pub remote_catalog: Option<BibleCatalog>,
    pub catalog_loading: bool,
    pub downloading: Option<String>,
    pub download_error: Option<String>,
    pub bible: Option<BibleData>,
    pub book_key: Option<String>,
    pub chapter: Option<usize>,
    /// Whether the shift key is held.
    pub shift_held: bool,
    /// The selected verse numbers, in increasing order.
    pub selected_verses: Vec<usize>,
    pub selection_anchor: Option<usize>,
    pub reference_text: String,
    pub reference_error: Option<ReferenceError>,
    pub modal: Option<Modal>,
    pub verse_popup: Option<(usize, VersePopup)>,
    pub search_query: String,
    pub bible_index: Option<BibleIndex>,
}

/// A bookmark as plain values.
pub struct BookmarkView {
    pub book_key: Seq<char>,
    pub chapter: usize,
    pub verse_start: Option<usize>,
    pub verse_end: Option<usize>,
    pub label: Option<Seq<char>>,
}

impl View for Bookmark {
    type V = BookmarkView;

    open spec fn view(&self) -> BookmarkView {
        BookmarkView {
            book_key: self.book_key@,
            chapter: self.chapter,
            verse_start: self.verse_start,
            verse_end: self.verse_end,
            label: opt_string_view(self.label),
        }
    }
}

/// An optional string as plain characters.
pub open spec fn opt_string_view(s: Option<String>) -> Option<Seq<char>> {
    match s {
        Some(t) => Some(t@),
        None => None,
    }
}

/// The settings as plain values.
pub struct ConfigView {
    pub bible_index: usize,
    pub selected_bible: Option<Seq<char>>,
    pub book_key: Option<Seq<char>>,
    pub chapter: Option<usize>,
    pub bookmarks: Seq<BookmarkView>,
    pub copy_includes_reference_policy: CopyIncludeReferencePolicy,
    pub copy_includes_verse_numbers: bool,
    pub copy_delimitate_with_newline: bool,
    pub show_footnotes: bool,
}

impl View for AppConfig {
    type V = ConfigView;

    open spec fn view(&self) -> ConfigView {
        ConfigView {
            bible_index: self.bible_index,
            selected_bible: opt_string_view(self.selected_bible),
            book_key: opt_string_view(self.book_key),
            chapter: self.chapter,
            bookmarks: self.bookmarks@.map_values(|b: Bookmark| b@),
            copy_includes_reference_policy: self.copy_includes_reference_policy,
            copy_includes_verse_numbers: self.copy_includes_verse_numbers,
            copy_delimitate_with_newline: self.copy_delimitate_with_newline,
            show_footnotes: self.show_footnotes,
        }
    }
}

/// A dialog as plain values.
pub enum ModalView {
    Footnote(LinkView),
    Bookmarks,
    Settings,
    Search,
    BibleManagement,
}

impl View for Modal {
    type V = ModalView;

    open spec fn view(&self) -> ModalView {
        match self {
            Modal::Footnote(l) => ModalView::Footnote(l@),
            Modal::Bookmarks => ModalView::Bookmarks,
            Modal::Settings => ModalView::Settings,
            Modal::Search => ModalView::Search,
            Modal::BibleManagement => ModalView::BibleManagement,
        }
    }
}

/// A verse popup as plain values.
pub enum PopupView {
    Menu,
    Note(Seq<char>),
}

impl View for VersePopup {
    type V = PopupView;

    open spec fn view(&self) -> PopupView {
        match self {
            VersePopup::Menu => PopupView::Menu,
            VersePopup::Note(t) => PopupView::Note(t@),
        }
    }
}

/// A reference error as plain values.
pub enum ReferenceErrorView {
    PickBibleFirst,
    NoBookMatching { query: Seq<char>, module: Seq<char> },
    NoChapterInBook { book: Seq<char>, chapter: usize },
    NotEnoughVerses { book: Seq<char>, chapter: usize, count: usize },
    NoVerseZero { book: Seq<char>, chapter: usize },
    CouldntUnderstand { reference: Seq<char> },
}

impl View for ReferenceError {
    type V = ReferenceErrorView;

    open spec fn view(&self) -> ReferenceErrorView {
        match self {
            ReferenceError::PickBibleFirst => ReferenceErrorView::PickBibleFirst,
            ReferenceError::NoBookMatching { query, module } => ReferenceErrorView::NoBookMatching {
                query: query@,
                module: module@,
            },
            ReferenceError::NoChapterInBook { book, chapter } => ReferenceErrorView::NoChapterInBook {
                book: book@,
                chapter: *chapter,
            },
            ReferenceError::NotEnoughVerses { book, chapter, count } =>
                ReferenceErrorView::NotEnoughVerses { book: book@, chapter: *chapter, count: *count },
            ReferenceError::NoVerseZero { book, chapter } => ReferenceErrorView::NoVerseZero {
                book: book@,
                chapter: *chapter,
            },
            ReferenceError::CouldntUnderstand { reference } => ReferenceErrorView::CouldntUnderstand {
                reference: reference@,
            },
        }
    }
}

/// An action as plain values.
pub enum ActionView {
    Nothing,
    FocusReferenceInput,
    FocusSearchInput,
    FetchCatalog,
    DownloadBible { name: Seq<char>, url: Seq<char> },
    LoadBible(Seq<char>),
    DeleteBible(Seq<char>),
    RefreshInstalled,
    CopyText(Seq<char>),
    SaveConfig,
}

impl View for Action {
    type V = ActionView;

    open spec fn view(&self) -> ActionView {
        match self {
            Action::Nothing => ActionView::Nothing,
            Action::FocusReferenceInput => ActionView::FocusReferenceInput,
            Action::FocusSearchInput => ActionView::FocusSearchInput,
            Action::FetchCatalog => ActionView::FetchCatalog,
            Action::DownloadBible { name, url } => ActionView::DownloadBible { name: name@, url: url@ },
            Action::LoadBible(n) => ActionView::LoadBible(n@),
            Action::DeleteBible(n) => ActionView::DeleteBible(n@),
            Action::RefreshInstalled => ActionView::RefreshInstalled,
            Action::CopyText(t) => ActionView::CopyText(t@),
            Action::SaveConfig => ActionView::SaveConfig,
        }
    }
}

/// The state as plain values.
pub struct StateView {
    pub config: ConfigView,
    pub installed_bibles: Seq<InstalledBible>,
    pub remote_catalog: Option<BibleCatalog>,
    pub catalog_loading: bool,
    pub downloading: Option<Seq<char>>,
    pub download_error: Option<Seq<char>>,
    pub bible: Option<BibleData>,
    pub book_key: Option<Seq<char>>,
    pub chapter: Option<usize>,
    pub shift_held: bool,
    pub selected_verses: Seq<usize>,
    pub selection_anchor: Option<usize>,
    pub reference_text: Seq<char>,
    pub reference_error: Option<ReferenceErrorView>,
    pub modal: Option<ModalView>,
    pub verse_popup: Option<(usize, PopupView)>,
    pub search_query: Seq<char>,
    pub bible_index: Option<BibleIndex>,
}

impl View for AppState {
    type V = StateView;

    open spec fn view(&self) -> StateView {
        StateView {
            config: self.config@,
            installed_bibles: self.installed_bibles@,
            remote_catalog: self.remote_catalog,
            catalog_loading: self.catalog_loading,
            downloading: opt_string_view(self.downloading),
            download_error: opt_string_view(self.download_error),
            bible: self.bible,
            book_key: opt_string_view(self.book_key),
            chapter: self.chapter,
            shift_held: self.shift_held,
            selected_verses: self.selected_verses@,
            selection_anchor: self.selection_anchor,
            reference_text: self.reference_text@,
            reference_error: match self.reference_error {
                Some(e) => Some(e@),
                None => None,
            },
            modal: match self.modal {
                Some(m) => Some(m@),
                None => None,
            },
            verse_popup: match self.verse_popup {
                Some(p) => Some((p.0, p.1@)),
                None => None,
            },
            search_query: self.search_query@,
            bible_index: self.bible_index,
        }
    }
}

impl AppState {
    /// Whether the selected verses are in increasing order, each once.
    pub open spec fn selection_ordered(&self) -> bool {
        self@.selection_ordered_view()
    }
}

impl StateView {
    /// Whether the selected verses are in increasing order, each once.
    pub open spec fn selection_ordered_view(self) -> bool {
        forall|i: int, j: int|
            0 <= i < j < self.selected_verses.len() ==> self.selected_verses[i] < self.selected_verses[j]
    }
}

/// The verse numbers `lo` to `hi`, both included; none when `lo > hi`.
pub open spec fn verse_range_seq(lo: usize, hi: usize) -> Seq<usize> {
    if lo <= hi {
        Seq::new((hi - lo + 1) as nat, |i: int| (lo + i) as usize)
    } else {
        Seq::empty()
    }
}

/// The verse numbers `lo` to `hi`, both included; none when `lo > hi`.
pub fn verse_range(lo: usize, hi: usize) -> (r: Vec<usize>)
    ensures
        r@ == verse_range_seq(lo, hi),
{
    let mut out: Vec<usize> = Vec::new();
    if lo > hi {
        return out;
    }
    let mut v = lo;
    loop
        invariant_except_break
            lo <= v <= hi,
            out@.len() == v - lo,
            forall|i: int| 0 <= i < out@.len() ==> out@[i] == lo + i,
        ensures
            out@ == verse_range_seq(lo, hi),
        decreases hi - v,
    {
        out.push(v);
        if v == hi {
            assert(out@ =~= verse_range_seq(lo, hi));
            break;
        }
        v = v + 1;
    }
    out
}

/// Whether `v` is among the verse numbers `s`.
pub fn contains_verse(s: &Vec<usize>, v: usize) -> (r: bool)
    ensures
        r == s@.contains(v),
{
    let n = s.len();
    let mut i: usize = 0;
    while i < n
        invariant
            i <= n,
            n == s@.len(),
            forall|j: int| 0 <= j < i ==> s@[j] != v,
        decreases n - i,
    {
        if s[i] == v {
            assert(s@[i as int] == v);
            return true;
        }
        i = i + 1;
    }
    false
}

} // verus!
