//! Decisions on bookmarks: adding one for the selection, with or without a
//! note, jumping to one, removing one.

use vstd::prelude::*;
use crate::bibles::{book_for_key, find_book};
use crate::config::Bookmark;
use crate::state::{
    opt_string_view, verse_range, verse_range_seq, Action, ActionView, AppState, BookmarkView, ConfigView,
    Modal, ModalView, PopupView, StateView, VersePopup,
};
use crate::text::{str_trim, trim_white_space};

verus! {

/// What happens to bookmarks.
#[derive(Debug)]
pub enum BookmarkMessage {
    Toggle,
    Add,
    SaveNote,
    JumpTo(usize),
    Remove(usize),
}

/// The state after bookmarking the current place with `label`: when a chapter
/// is open, a bookmark of it, with the first and last selected verses if any,
/// is added at the end.
pub open spec fn push_bookmark_spec(s: StateView, label: Option<Seq<char>>) -> StateView {
    if s.book_key is Some && s.chapter is Some {
        let (start, end) = if s.selected_verses.len() > 0 {
            (Some(s.selected_verses[0]), Some(s.selected_verses.last()))
        } else {
            (None, None)
        };
        let b = BookmarkView {
            book_key: s.book_key->0,
            chapter: s.chapter->0,
            verse_start: start,
            verse_end: end,
            label,
        };
        StateView { config: ConfigView { bookmarks: s.config.bookmarks.push(b), ..s.config }, ..s }
    } else {
        s
    }
}

/// The label a note gives a bookmark: none when it is blank.
pub open spec fn note_label(text: Seq<char>) -> Option<Seq<char>> {
    if trim_white_space(text).len() == 0 {
        None
    } else {
        Some(text)
    }
}

/// How a message about bookmarks changes the state and what it asks for.
pub open spec fn bookmark_transition(
    old: StateView,
    message: BookmarkMessage,
    new: StateView,
    r: ActionView,
) -> bool {
    &&& r == ActionView::Nothing
    &&& match message {
        BookmarkMessage::Toggle => new == (StateView {
            modal: match old.modal {
                Some(ModalView::Bookmarks) => None,
                _ => Some(ModalView::Bookmarks),
            },
            ..old
        }),
        BookmarkMessage::Add => new == (StateView {
            verse_popup: None,
            ..push_bookmark_spec(old, None)
        }),
        BookmarkMessage::SaveNote => new == match old.verse_popup {
            Some((_, PopupView::Note(t))) => StateView {
                verse_popup: None,
                ..push_bookmark_spec(old, note_label(t))
            },
            _ => StateView { verse_popup: None, ..old },
        },
        BookmarkMessage::JumpTo(idx) => {
            let b = old.config.bookmarks[idx as int];
            if idx < old.config.bookmarks.len() && old.bible is Some && book_for_key(
                old.bible->0.books@,
                b.book_key,
            ) is Some {
                new == (StateView {
                    book_key: Some(b.book_key),
                    chapter: Some(b.chapter),
                    selected_verses: match (b.verse_start, b.verse_end) {
                        (Some(s), Some(e)) => verse_range_seq(s, e),
                        _ => Seq::empty(),
                    },
                    selection_anchor: match (b.verse_start, b.verse_end) {
                        (Some(s), Some(e)) => Some(s),
                        _ => None,
                    },
                    modal: None,
                    ..old
                })
            } else {
                new == (StateView { modal: None, ..old })
            }
        },
        BookmarkMessage::Remove(idx) => if idx < old.config.bookmarks.len() {
            new == (StateView {
                config: ConfigView { bookmarks: old.config.bookmarks.remove(idx as int), ..old.config },
                ..old
            })
        } else {
            new == old
        },
    }
}

/// Whether the verse numbers are one run `first..=last` (or none).
pub open spec fn is_verse_run(s: Seq<usize>) -> bool {
    s.len() == 0 || s == verse_range_seq(s[0], s.last())
}

/// Jumping to a bookmark brings back the place it was added at: after adding
/// a bookmark and jumping to it, the same book and chapter are open and the
/// same run of verses is selected, as long as the Bible has the book.
pub proof fn law_bookmark_jump_returns(
    old: StateView,
    mid: StateView,
    new: StateView,
    r1: ActionView,
    r2: ActionView,
)
    requires
        old.book_key is Some,
        old.chapter is Some,
        old.bible is Some,
        book_for_key(old.bible->0.books@, old.book_key->0) is Some,
        is_verse_run(old.selected_verses),
        old.config.bookmarks.len() < usize::MAX,
        bookmark_transition(old, BookmarkMessage::Add, mid, r1),
        bookmark_transition(
            mid,
            BookmarkMessage::JumpTo(old.config.bookmarks.len() as usize),
            new,
            r2,
        ),
    ensures
        new.book_key == old.book_key,
        new.chapter == old.chapter,
        new.selected_verses == old.selected_verses,
{
    let idx = old.config.bookmarks.len() as int;
    assert(mid.config.bookmarks.len() == idx + 1);
    let b = mid.config.bookmarks[idx];
    assert(b.book_key == old.book_key->0);
    if old.selected_verses.len() == 0 {
        assert(new.selected_verses =~= old.selected_verses);
    }
}

/// Removing the bookmark just added undoes the adding: the bookmarks are
/// as they were before.
pub proof fn law_bookmark_remove_undoes_add(
    old: StateView,
    mid: StateView,
    new: StateView,
    r1: ActionView,
    r2: ActionView,
)
    requires
        old.book_key is Some,
        old.chapter is Some,
        old.config.bookmarks.len() < usize::MAX,
        bookmark_transition(old, BookmarkMessage::Add, mid, r1),
        bookmark_transition(
            mid,
            BookmarkMessage::Remove(old.config.bookmarks.len() as usize),
            new,
            r2,
        ),
    ensures
        new.config.bookmarks == old.config.bookmarks,
{
    let b = mid.config.bookmarks.last();
    assert(mid.config.bookmarks == old.config.bookmarks.push(b));
    assert(old.config.bookmarks.push(b).remove(old.config.bookmarks.len() as int)
        =~= old.config.bookmarks);
}

/// Removing a bookmark takes out exactly the one at the index asked for:
/// the bookmarks before it stay where they were, those after it move up by
/// one, nothing else in the state changes, and an index past the end
/// changes nothing.
pub proof fn law_bookmark_remove_takes_that_one(
    old: StateView,
    idx: usize,
    new: StateView,
    r: ActionView,
)
    requires
        bookmark_transition(old, BookmarkMessage::Remove(idx), new, r),
    ensures
        idx < old.config.bookmarks.len() ==> {
            &&& new.config.bookmarks.len() == old.config.bookmarks.len() - 1
            &&& forall|j: int| 0 <= j < idx ==> #[trigger] new.config.bookmarks[j] == old.config.bookmarks[j]
            &&& forall|j: int|
                idx <= j < new.config.bookmarks.len() ==> #[trigger] new.config.bookmarks[j]
                    == old.config.bookmarks[j + 1]
            &&& new == (StateView { config: ConfigView { bookmarks: new.config.bookmarks, ..old.config }, ..old })
        },
        idx >= old.config.bookmarks.len() ==> new == old,
{
}

impl AppState {
    /// Clears the selection and its anchor.
    pub fn clear_selection(&mut self)
        ensures
            final(self)@ == (StateView {
                selected_verses: Seq::empty(),
                selection_anchor: None,
                ..old(self)@
            }),
    {
        self.selected_verses = Vec::new();
        self.selection_anchor = None;
        assert(self.selected_verses@ =~= Seq::<usize>::empty());
    }

    /// Bookmarks the current place, with `label`.
    pub fn push_bookmark(&mut self, label: Option<String>)
        ensures
            final(self)@ == push_bookmark_spec(old(self)@, opt_string_view(label)),
    {
        let (book_key, chapter) = match (&self.book_key, self.chapter) {
            (Some(k), Some(c)) => (k.clone(), c),
            _ => return,
        };
        let n = self.selected_verses.len();
        let (verse_start, verse_end) = if n > 0 {
            (Some(self.selected_verses[0]), Some(self.selected_verses[n - 1]))
        } else {
            (None, None)
        };
        let b = Bookmark { book_key, chapter, verse_start, verse_end, label };
        let ghost before = self.config@;
        self.config.bookmarks.push(b);
        assert(self.config@.bookmarks =~= before.bookmarks.push(b@));
    }

    /// Decides on a message about bookmarks.
    pub fn update_bookmark(&mut self, message: BookmarkMessage) -> (r: Action)
        ensures
            bookmark_transition(old(self)@, message, final(self)@, r@),
    {
        match message {
            BookmarkMessage::Toggle => {
                let open = match &self.modal {
                    Some(Modal::Bookmarks) => true,
                    _ => false,
                };
                self.modal = if open { None } else { Some(Modal::Bookmarks) };
            },
            BookmarkMessage::Add => {
                self.push_bookmark(None);
                self.verse_popup = None;
            },
            BookmarkMessage::SaveNote => {
                let popup = self.verse_popup.take();
                match popup {
                    Some((_, VersePopup::Note(text))) => {
                        let blank = str_trim(text.as_str()).is_empty();
                        let label = if blank { None } else { Some(text) };
                        self.push_bookmark(label);
                    },
                    _ => {},
                }
            },
            BookmarkMessage::JumpTo(idx) => {
                if idx < self.config.bookmarks.len() {
                    let ghost b = self.config@.bookmarks[idx as int];
                    let found = match &self.bible {
                        Some(bible) => find_book(
                            bible,
                            self.config.bookmarks[idx].book_key.as_str(),
                        ).is_some(),
                        None => false,
                    };
                    if found {
                        let key = self.config.bookmarks[idx].book_key.clone();
                        let chapter = self.config.bookmarks[idx].chapter;
                        let start = self.config.bookmarks[idx].verse_start;
                        let end = self.config.bookmarks[idx].verse_end;
                        self.book_key = Some(key);
                        self.chapter = Some(chapter);
                        match (start, end) {
                            (Some(s), Some(e)) => {
                                self.selected_verses = verse_range(s, e);
                                self.selection_anchor = Some(s);
                            },
                            _ => self.clear_selection(),
                        }
                    }
                }
                self.modal = None;
            },
            BookmarkMessage::Remove(idx) => {
                if idx < self.config.bookmarks.len() {
                    let ghost before = self.config@;
                    self.config.bookmarks.remove(idx);
                    assert(self.config@.bookmarks =~= before.bookmarks.remove(idx as int));
                }
            },
        }
        Action::Nothing
    }
}

} // verus!
