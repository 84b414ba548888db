//! The reader's decisions, one module per kind of message, and the dispatch
//! of every message to them.

pub mod bible;
pub mod bookmark;
pub mod reference;
pub mod search;
pub mod settings;
pub mod verse;

use vstd::prelude::*;
use crate::bibles::{book_for_key, find_book, BibleData};
use crate::config::AppConfig;
use crate::library::library::InstalledBible;
use crate::search_index::{all_bible_documents, BibleIndex};
use crate::state::{Action, ActionView, AppState, ConfigView, Modal, StateView};
use bible::{bible_transition, BibleMessage};
use bookmark::{bookmark_transition, BookmarkMessage};
use reference::{reference_transition, ReferenceMessage};
use search::{search_transition, SearchMessage};
use settings::{settings_transition, sync_config_spec, SettingsMessage};
use verse::{verse_transition, VerseMessage};

verus! {

/// Everything that can happen to the reader.
#[derive(Debug)]
pub enum Message {
    Bible(BibleMessage),
    Reference(ReferenceMessage),
    Verse(VerseMessage),
    Bookmark(BookmarkMessage),
    Settings(SettingsMessage),
    Search(SearchMessage),
    /// The modifier keys changed; whether shift is now held.
    ModifiersChanged { shift: bool },
    /// The window got the focus.
    FocusInput,
    CloseModal,
    OpenModal(Modal),
    UpdateConfig(AppConfig),
    WindowCloseRequested,
    NoOp,
}

/// How a message changes the state and what it asks for.
pub open spec fn transition(old: StateView, message: Message, new: StateView, r: ActionView) -> bool {
    match message {
        Message::Bible(m) => bible_transition(old, m, new, r),
        Message::Reference(m) => reference_transition(old, m, new, r),
        Message::Verse(m) => verse_transition(old, m, new, r),
        Message::Bookmark(m) => bookmark_transition(old, m, new, r),
        Message::Settings(m) => settings_transition(old, m, new, r),
        Message::Search(m) => search_transition(old, m, new, r),
        Message::ModifiersChanged { shift } => {
            &&& r == ActionView::Nothing
            &&& new == (StateView { shift_held: shift, ..old })
        },
        Message::FocusInput => {
            &&& r == ActionView::FocusReferenceInput
            &&& new == old
        },
        Message::CloseModal => {
            &&& r == ActionView::Nothing
            &&& new == (StateView { modal: None, ..old })
        },
        Message::OpenModal(m) => {
            &&& r == ActionView::Nothing
            &&& new == (StateView { modal: Some(m@), ..old })
        },
        Message::UpdateConfig(c) => {
            &&& r == ActionView::Nothing
            &&& new == (StateView { config: c@, ..old })
        },
        Message::WindowCloseRequested => {
            &&& r == ActionView::SaveConfig
            &&& new == sync_config_spec(old)
        },
        Message::NoOp => {
            &&& r == ActionView::Nothing
            &&& new == old
        },
    }
}

/// The Bible to open at start: the one last read if it is still
/// installed, else the first installed one.
pub open spec fn initial_bible_spec(config: ConfigView, installed: Seq<InstalledBible>) -> Option<
    Seq<char>,
> {
    match config.selected_bible {
        Some(n) => if exists|i: int| 0 <= i < installed.len() && installed[i].name@ == n {
            Some(n)
        } else if installed.len() > 0 {
            Some(installed[0].name@)
        } else {
            None
        },
        None => if installed.len() > 0 {
            Some(installed[0].name@)
        } else {
            None
        },
    }
}

proof fn lemma_verse_range_increasing(lo: usize, hi: usize)
    ensures
        reference::strictly_increasing(crate::state::verse_range_seq(lo, hi)),
{
}

proof fn lemma_follow_reference_keeps_increasing(cleared: StateView, text: Seq<char>)
    requires
        reference::strictly_increasing(cleared.selected_verses),
    ensures
        reference::strictly_increasing(reference::follow_reference_text(cleared, text).selected_verses),
{
    if let Some(rv) = crate::references::reference_from_groups(
        crate::references::regex_captures_of(crate::references::REFERENCE_PATTERN@, text),
    ) {
        reference::law_applied_reference_exists(cleared, rv);
    }
}

/// The selected verses always stay in increasing order, each verse once:
/// no message breaks that.
pub proof fn law_selection_stays_ordered(old: StateView, message: Message, new: StateView, r: ActionView)
    requires
        reference::strictly_increasing(old.selected_verses),
        transition(old, message, new, r),
    ensures
        reference::strictly_increasing(new.selected_verses),
{
    match message {
        Message::Verse(m) => match m {
            VerseMessage::Clicked(v) => {
                if old.shift_held && old.selection_anchor is Some {
                    let a = old.selection_anchor->0;
                    lemma_verse_range_increasing(a, v);
                    lemma_verse_range_increasing(v, a);
                }
            },
            _ => {},
        },
        Message::Reference(m) => match m {
            ReferenceMessage::InputChanged(_) => {},
            ReferenceMessage::Submitted => {
                lemma_follow_reference_keeps_increasing(
                    StateView { reference_error: None, ..old },
                    old.reference_text,
                );
            },
            ReferenceMessage::CrossRefClicked(t) => {
                lemma_follow_reference_keeps_increasing(StateView { modal: None, ..old }, t@);
            },
        },
        Message::Bookmark(m) => match m {
            BookmarkMessage::JumpTo(idx) => {
                let b = old.config.bookmarks[idx as int];
                if let (Some(s), Some(e)) = (b.verse_start, b.verse_end) {
                    lemma_verse_range_increasing(s, e);
                }
            },
            _ => {},
        },
        _ => {},
    }
}

/// Whether a message is the toggle of the settings, bookmarks or search dialog.
pub open spec fn is_dialog_toggle(m: Message) -> bool {
    ||| m matches Message::Settings(SettingsMessage::Toggle)
    ||| m matches Message::Bookmark(BookmarkMessage::Toggle)
    ||| m matches Message::Search(SearchMessage::Toggle)
}

/// Toggling a dialog open from a state with no dialog, then toggling it again,
/// closes it and leaves the state as it was, with these differences: the
/// search dialog opens with an empty query and closes the verse popup, and
/// each toggle of the settings records the current place in them and asks to
/// save them.
pub proof fn law_toggle_twice_restores(
    s0: StateView,
    m: Message,
    s1: StateView,
    r1: ActionView,
    s2: StateView,
    r2: ActionView,
)
    requires
        is_dialog_toggle(m),
        s0.modal is None,
        transition(s0, m, s1, r1),
        transition(s1, m, s2, r2),
    ensures
        s1.modal is Some,
        m matches Message::Settings(_) ==> s2 == sync_config_spec(s0) && r2
            == ActionView::SaveConfig,
        m matches Message::Bookmark(_) ==> s2 == s0 && r2 == ActionView::Nothing,
        m matches Message::Search(_) ==> s2 == (StateView {
            search_query: Seq::empty(),
            verse_popup: None,
            ..s0
        }) && r2 == ActionView::Nothing,
{
}

impl AppState {
    /// The state at start, with the saved settings and the installed
    /// Bibles: nothing open, nothing selected, no dialog.
    pub fn new(config: AppConfig, installed: Vec<InstalledBible>) -> (r: AppState)
        ensures
            r@.config == config@,
            r@.installed_bibles == installed@,
            r@.remote_catalog is None,
            !r@.catalog_loading,
            r@.downloading is None,
            r@.download_error is None,
            r@.bible is None,
            r@.book_key is None,
            r@.chapter is None,
            !r@.shift_held,
            r@.selected_verses.len() == 0,
            r@.selection_anchor is None,
            r@.reference_text.len() == 0,
            r@.reference_error is None,
            r@.modal is None,
            r@.verse_popup is None,
            r@.search_query.len() == 0,
            r@.bible_index is None,
    {
        AppState {
            config,
            installed_bibles: installed,
            remote_catalog: None,
            catalog_loading: false,
            downloading: None,
            download_error: None,
            bible: None,
            book_key: None,
            chapter: None,
            shift_held: false,
            selected_verses: Vec::new(),
            selection_anchor: None,
            reference_text: String::new(),
            reference_error: None,
            modal: None,
            verse_popup: None,
            search_query: String::new(),
            bible_index: None,
        }
    }

    /// The Bible to open at start.
    pub fn initial_bible(&self) -> (r: Option<String>)
        ensures
            match r {
                Some(n) => initial_bible_spec(self@.config, self@.installed_bibles) == Some(n@),
                None => initial_bible_spec(self@.config, self@.installed_bibles) is None,
            },
    {
        let n = self.installed_bibles.len();
        match &self.config.selected_bible {
            Some(name) => {
                let mut i: usize = 0;
                while i < n
                    invariant
                        i <= n,
                        n == self.installed_bibles@.len(),
                        self.config.selected_bible == Some(*name),
                        forall|j: int| 0 <= j < i ==> self.installed_bibles@[j].name@ != name@,
                    decreases n - i,
                {
                    if self.installed_bibles[i].name == *name {
                        assert(self.installed_bibles@[i as int].name@ == name@);
                        assert(self@.config.selected_bible == Some(name@));
                        assert(exists|j: int|
                            0 <= j < self@.installed_bibles.len()
                                && self@.installed_bibles[j].name@ == name@);
                        return Some(name.clone());
                    }
                    i = i + 1;
                }
            },
            None => {},
        }
        if n > 0 {
            Some(self.installed_bibles[0].name.clone())
        } else {
            None
        }
    }

    /// Opens at start the Bible `name` read from disk (`None` when it
    /// could not be read): it becomes the selected Bible, its search
    /// index is built when that succeeds, and the saved book and chapter (the
    /// first chapter when none was saved) are opened again when the
    /// Bible has them.
    pub fn restore_bible(&mut self, name: String, data: Option<BibleData>)
        ensures
            data is None ==> final(self)@ == old(self)@,
            data is Some ==> (final(self).bible_index matches Some(i) ==> i.indexed_documents()
                == all_bible_documents(data->0)),
            data is Some ==> {
                let b = data->0;
                let c: usize = match old(self)@.config.chapter {
                    Some(c) => c,
                    None => 1,
                };
                let restore = old(self)@.config.book_key is Some && match book_for_key(
                    b.books@,
                    old(self)@.config.book_key->0,
                ) {
                    Some(book) => 1 <= c && c <= book.chapters@.len(),
                    None => false,
                };
                final(self)@ == (StateView {
                    bible: data,
                    bible_index: final(self).bible_index,
                    config: ConfigView { selected_bible: Some(name@), ..old(self)@.config },
                    book_key: if restore {
                        old(self)@.config.book_key
                    } else {
                        old(self)@.book_key
                    },
                    chapter: if restore {
                        Some(c)
                    } else {
                        old(self)@.chapter
                    },
                    ..old(self)@
                })
            },
    {
        let data = match data {
            Some(d) => d,
            None => return,
        };
        self.bible_index = match BibleIndex::build(&data) {
            Ok(i) => Some(i),
            Err(_) => None,
        };
        let chapter: usize = match self.config.chapter {
            Some(c) => c,
            None => 1,
        };
        let restore = match &self.config.book_key {
            Some(key) => match find_book(&data, key.as_str()) {
                Some(book) => 1 <= chapter && chapter <= book.chapters.len(),
                None => false,
            },
            None => false,
        };
        self.bible = Some(data);
        self.config.selected_bible = Some(name);
        if restore {
            self.book_key = match &self.config.book_key {
                Some(k) => Some(k.clone()),
                None => None,
            };
            self.chapter = Some(chapter);
        }
    }

    /// Decides on a message: changes the state and says what to do next.
    pub fn update(&mut self, message: Message) -> (r: Action)
        requires
            message matches Message::Bible(BibleMessage::SelectChapterIndex(idx)) ==> idx
                < usize::MAX,
        ensures
            transition(old(self)@, message, final(self)@, r@),
            old(self).selection_ordered() ==> final(self).selection_ordered(),
    {
        let ghost before = self@;
        let ghost m = message;
        let r = self.update_inner(message);
        proof {
            if before.selection_ordered_view() {
                law_selection_stays_ordered(before, m, self@, r@);
            }
        }
        r
    }

    fn update_inner(&mut self, message: Message) -> (r: Action)
        requires
            message matches Message::Bible(BibleMessage::SelectChapterIndex(idx)) ==> idx
                < usize::MAX,
        ensures
            transition(old(self)@, message, final(self)@, r@),
    {
        match message {
            Message::Bible(m) => self.update_bible(m),
            Message::Reference(m) => self.update_reference(m),
            Message::Verse(m) => self.update_verse(m),
            Message::Bookmark(m) => self.update_bookmark(m),
            Message::Settings(m) => self.update_settings(m),
            Message::Search(m) => self.update_search(m),
            Message::ModifiersChanged { shift } => {
                self.shift_held = shift;
                Action::Nothing
            },
            Message::FocusInput => Action::FocusReferenceInput,
            Message::CloseModal => {
                self.modal = None;
                Action::Nothing
            },
            Message::OpenModal(m) => {
                self.modal = Some(m);
                Action::Nothing
            },
            Message::UpdateConfig(config) => {
                self.config = config;
                Action::Nothing
            },
            Message::WindowCloseRequested => {
                self.sync_config();
                Action::SaveConfig
            },
            Message::NoOp => Action::Nothing,
        }
    }
}

} // verus!
