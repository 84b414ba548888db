//! Decisions on verses: selecting them, their popup, footnotes, and the text
//! that copying a selection puts on the clipboard.

use vstd::prelude::*;
use vstd::string::StringExecFns;
use crate::bibles::{book_for_key, find_book, Verse};
use crate::config::CopyIncludeReferencePolicy;
use crate::footnotes::FootnoteLink;
use crate::state::{
    contains_verse, verse_range, verse_range_seq, Action, ActionView, AppState, Modal, ModalView,
    PopupView, StateView, VersePopup,
};
use crate::text::{decimal_digits, push_char, push_decimal};

verus! {

/// What happens to verses.
#[derive(Debug)]
pub enum VerseMessage {
    Clicked(usize),
    RightClicked(usize),
    ClosePopup,
    OpenNoteInput,
    NoteTextChanged(String),
    CopySelection,
    FootnoteClicked(FootnoteLink),
    ToggleFootnotes(bool),
}

/// The text of one copied verse: its number and a space first when numbers are copied.
pub open spec fn verse_piece(num: usize, text: Seq<char>, with_number: bool) -> Seq<char> {
    if with_number {
        decimal_digits(num as nat) + seq![' '] + text
    } else {
        text
    }
}

/// The copied texts of the selected verses that the chapter has, in order.
pub open spec fn verse_pieces(verses: Seq<Verse>, selected: Seq<usize>, with_number: bool) -> Seq<
    Seq<char>,
>
    decreases selected.len(),
{
    if selected.len() == 0 {
        Seq::empty()
    } else {
        let rest = verse_pieces(verses, selected.drop_last(), with_number);
        let num = selected.last();
        if 1 <= num && num <= verses.len() {
            rest.push(verse_piece(num, verses[num - 1].0@, with_number))
        } else {
            rest
        }
    }
}

/// The pieces joined, with `sep` between each two.
pub open spec fn join_with(pieces: Seq<Seq<char>>, sep: Seq<char>) -> Seq<char>
    decreases pieces.len(),
{
    if pieces.len() == 0 {
        Seq::empty()
    } else if pieces.len() == 1 {
        pieces[0]
    } else {
        join_with(pieces.drop_last(), sep) + sep + pieces.last()
    }
}

/// `Book chapter:verse`, or `Book chapter:first-last` for several verses.
pub open spec fn reference_label(book: Seq<char>, chapter: usize, start: usize, end: usize) -> Seq<
    char,
> {
    let head = book + seq![' '] + decimal_digits(chapter as nat) + seq![':'] + decimal_digits(
        start as nat,
    );
    if start == end {
        head
    } else {
        head + seq!['-'] + decimal_digits(end as nat)
    }
}

/// What copying the selection gives: the selected verses of the current
/// chapter, one per line or separated by spaces, with their numbers if so
/// set, and the reference above or below them if so set. Nothing when no
/// chapter is open or no verse is selected.
pub open spec fn selection_text_spec(s: StateView) -> Option<Seq<char>> {
    if s.book_key is None || s.chapter is None || s.bible is None {
        None
    } else {
        let c = s.chapter->0;
        match book_for_key(s.bible->0.books@, s.book_key->0) {
            None => None,
            Some(book) => if c < 1 || c > book.chapters@.len() || s.selected_verses.len() == 0 {
                None
            } else {
                let verses = book.chapters@[c - 1]@;
                let start = s.selected_verses[0];
                let end = s.selected_verses.last();
                let reference = reference_label(book.name@, c, start, end);
                let sep = if s.config.copy_delimitate_with_newline {
                    seq!['\n']
                } else {
                    seq![' ']
                };
                let body = join_with(
                    verse_pieces(verses, s.selected_verses, s.config.copy_includes_verse_numbers),
                    sep,
                );
                Some(
                    match s.config.copy_includes_reference_policy {
                        CopyIncludeReferencePolicy::DoNot => body,
                        CopyIncludeReferencePolicy::Top => reference + seq!['\n'] + body,
                        CopyIncludeReferencePolicy::Bottom => body + seq!['\n'] + reference,
                    },
                )
            },
        }
    }
}

fn push_str(s: &mut String, t: &str)
    ensures
        final(s)@ == old(s)@ + t@,
{
    s.append(t);
}


/// `Book chapter:verse`, or `Book chapter:first-last`.
fn copy_reference_label(book: &str, chapter: usize, start: usize, end: usize) -> (r: String)
    ensures
        r@ == reference_label(book@, chapter, start, end),
{
    let mut reference = String::new();
    push_str(&mut reference, book);
    push_char(&mut reference, ' ');
    push_decimal(&mut reference, chapter);
    push_char(&mut reference, ':');
    push_decimal(&mut reference, start);
    if start != end {
        push_char(&mut reference, '-');
        push_decimal(&mut reference, end);
    }
    proof {
        let head = book@ + seq![' '] + decimal_digits(chapter as nat) + seq![':'] + decimal_digits(
            start as nat,
        );
        if start == end {
            assert(reference@ =~= head);
        } else {
            assert(reference@ =~= head + seq!['-'] + decimal_digits(end as nat));
        }
    }
    reference
}

/// The copied texts of the selected verses that the chapter has, joined by `sep`.
fn copy_body(verses: &Vec<Verse>, selected: &Vec<usize>, with_number: bool, sep: char) -> (r: String)
    ensures
        r@ == join_with(verse_pieces(verses@, selected@, with_number), seq![sep]),
{
    let ghost sel = selected@;
    let ghost vs = verses@;
    let n = selected.len();
    let mut body = String::new();
    let mut pieces: usize = 0;
    let mut i: usize = 0;
    assert(sel.take(0) =~= Seq::<usize>::empty());
    while i < n
        invariant
            i <= n,
            n == sel.len(),
            sel == selected@,
            vs == verses@,
            pieces <= i,
            pieces == verse_pieces(vs, sel.take(i as int), with_number).len(),
            body@ == join_with(verse_pieces(vs, sel.take(i as int), with_number), seq![sep]),
        decreases n - i,
    {
        let num = selected[i];
        let ghost prev = verse_pieces(vs, sel.take(i as int), with_number);
        assert(sel.take(i + 1).drop_last() =~= sel.take(i as int));
        assert(sel.take(i + 1).last() == num);
        if num >= 1 && num <= verses.len() {
            let text = verses[num - 1].text();
            let ghost before = body@;
            let ghost p = verse_piece(num, vs[num - 1].0@, with_number);
            assert(verse_pieces(vs, sel.take(i + 1), with_number) == prev.push(p));
            if pieces > 0 {
                push_char(&mut body, sep);
            }
            if with_number {
                push_decimal(&mut body, num);
                push_char(&mut body, ' ');
            }
            push_str(&mut body, text);
            proof {
                if pieces > 0 {
                    assert(prev.push(p).drop_last() =~= prev);
                    assert(body@ =~= before + seq![sep] + p);
                } else {
                    assert(body@ =~= p);
                }
            }
            pieces = pieces + 1;
        } else {
            assert(verse_pieces(vs, sel.take(i + 1), with_number) == prev);
        }
        i = i + 1;
    }
    assert(sel.take(n as int) =~= sel);
    body
}

/// How a message about verses changes the state and what it asks for.
pub open spec fn verse_transition(old: StateView, message: VerseMessage, new: StateView, r: ActionView) -> bool {
    match message {
        VerseMessage::Clicked(v) => {
            &&& r == ActionView::Nothing
            &&& if old.shift_held && old.selection_anchor is Some {
                let a = old.selection_anchor->0;
                new == (StateView {
                    selected_verses: if a <= v {
                        verse_range_seq(a, v)
                    } else {
                        verse_range_seq(v, a)
                    },
                    ..old
                })
            } else {
                new == (StateView {
                    selected_verses: seq![v],
                    selection_anchor: Some(v),
                    ..old
                })
            }
        },
        VerseMessage::RightClicked(v) => {
            &&& r == ActionView::Nothing
            &&& if old.selected_verses.contains(v) {
                new == (StateView {
                    verse_popup: Some((v, PopupView::Menu)),
                    ..old
                })
            } else {
                new == (StateView {
                    selected_verses: seq![v],
                    selection_anchor: Some(v),
                    verse_popup: Some((v, PopupView::Menu)),
                    ..old
                })
            }
        },
        VerseMessage::ClosePopup => {
            &&& r == ActionView::Nothing
            &&& new == (StateView { verse_popup: None, ..old })
        },
        VerseMessage::OpenNoteInput => {
            &&& r == ActionView::Nothing
            &&& new == (StateView {
                verse_popup: match old.verse_popup {
                    Some(p) => Some((p.0, PopupView::Note(Seq::empty()))),
                    None => None,
                },
                ..old
            })
        },
        VerseMessage::NoteTextChanged(t) => {
            &&& r == ActionView::Nothing
            &&& new == (StateView {
                verse_popup: match old.verse_popup {
                    Some((v, PopupView::Note(_))) => Some((v, PopupView::Note(t@))),
                    other => other,
                },
                ..old
            })
        },
        VerseMessage::CopySelection => {
            &&& new == (StateView { verse_popup: None, ..old })
            &&& r == match selection_text_spec(old) {
                Some(t) => ActionView::CopyText(t),
                None => ActionView::Nothing,
            }
        },
        VerseMessage::FootnoteClicked(link) => {
            &&& r == ActionView::Nothing
            &&& new == (StateView {
                modal: Some(ModalView::Footnote(link@)),
                ..old
            })
        },
        VerseMessage::ToggleFootnotes(enabled) => {
            &&& r == ActionView::Nothing
            &&& new == (StateView {
                config: crate::state::ConfigView { show_footnotes: enabled, ..old.config },
                modal: if enabled { old.modal } else { None },
                ..old
            })
        },
    }
}

impl AppState {
    /// The text that copying the selection puts on the clipboard.
    pub fn selection_text(&self) -> (r: Option<String>)
        ensures
            match r {
                Some(t) => selection_text_spec(self@) == Some(t@),
                None => selection_text_spec(self@) is None,
            },
    {
        let book_key = match &self.book_key {
            Some(k) => k,
            None => return None,
        };
        let chapter = match self.chapter {
            Some(c) => c,
            None => return None,
        };
        let bible = match &self.bible {
            Some(b) => b,
            None => return None,
        };
        let book = match find_book(bible, book_key.as_str()) {
            Some(b) => b,
            None => return None,
        };
        if chapter < 1 || chapter > book.chapters.len() {
            return None;
        }
        let verses = &book.chapters[chapter - 1];
        let n = self.selected_verses.len();
        if n == 0 {
            return None;
        }
        let start = self.selected_verses[0];
        let end = self.selected_verses[n - 1];
        let reference = copy_reference_label(book.name.as_str(), chapter, start, end);
        let sep = if self.config.copy_delimitate_with_newline { '\n' } else { ' ' };
        let body = copy_body(verses, &self.selected_verses, self.config.copy_includes_verse_numbers, sep);
        assert(sep == '\n' ==> seq![sep] == seq!['\n']);
        let mut out = String::new();
        match self.config.copy_includes_reference_policy {
            CopyIncludeReferencePolicy::DoNot => {
                push_str(&mut out, body.as_str());
            },
            CopyIncludeReferencePolicy::Top => {
                push_str(&mut out, reference.as_str());
                push_char(&mut out, '\n');
                push_str(&mut out, body.as_str());
            },
            CopyIncludeReferencePolicy::Bottom => {
                push_str(&mut out, body.as_str());
                push_char(&mut out, '\n');
                push_str(&mut out, reference.as_str());
            },
        }
        proof {
            assert(Seq::<char>::empty() + body@ =~= body@);
            assert(Seq::<char>::empty() + reference@ + seq!['\n'] + body@ =~= reference@ + seq!['\n'] + body@);
            assert(Seq::<char>::empty() + body@ + seq!['\n'] + reference@ =~= body@ + seq!['\n'] + reference@);
        }
        Some(out)
    }

    /// Selects the single verse `v`, which becomes the anchor.
    fn select_single(&mut self, v: usize)
        ensures
            final(self)@ == (StateView {
                selected_verses: seq![v],
                selection_anchor: Some(v),
                ..old(self)@
            }),
    {
        let mut sel: Vec<usize> = Vec::new();
        sel.push(v);
        self.selected_verses = sel;
        self.selection_anchor = Some(v);
        assert(self.selected_verses@ =~= seq![v]);
    }

    /// Decides on a message about verses.
    pub fn update_verse(&mut self, message: VerseMessage) -> (r: Action)
        ensures
            verse_transition(old(self)@, message, final(self)@, r@),
    {
        match message {
            VerseMessage::Clicked(v) => {
                if self.shift_held {
                    match self.selection_anchor {
                        Some(a) => {
                            let sel = if a <= v { verse_range(a, v) } else { verse_range(v, a) };
                            self.selected_verses = sel;
                        },
                        None => self.select_single(v),
                    }
                } else {
                    self.select_single(v);
                }
                Action::Nothing
            },
            VerseMessage::RightClicked(v) => {
                if !contains_verse(&self.selected_verses, v) {
                    self.select_single(v);
                }
                self.verse_popup = Some((v, VersePopup::Menu));
                Action::Nothing
            },
            VerseMessage::ClosePopup => {
                self.verse_popup = None;
                Action::Nothing
            },
            VerseMessage::OpenNoteInput => {
                match &self.verse_popup {
                    Some((v, _)) => {
                        let v = *v;
                        self.verse_popup = Some((v, VersePopup::Note(String::new())));
                    },
                    None => {},
                }
                Action::Nothing
            },
            VerseMessage::NoteTextChanged(t) => {
                let is_note = match &self.verse_popup {
                    Some((_, VersePopup::Note(_))) => true,
                    _ => false,
                };
                if is_note {
                    let v = match &self.verse_popup {
                        Some((v, _)) => *v,
                        None => 0,
                    };
                    self.verse_popup = Some((v, VersePopup::Note(t)));
                }
                Action::Nothing
            },
            VerseMessage::CopySelection => {
                self.verse_popup = None;
                match self.selection_text() {
                    Some(t) => Action::CopyText(t),
                    None => Action::Nothing,
                }
            },
            VerseMessage::FootnoteClicked(link) => {
                self.modal = Some(Modal::Footnote(link));
                Action::Nothing
            },
            VerseMessage::ToggleFootnotes(enabled) => {
                self.config.show_footnotes = enabled;
                if !enabled {
                    self.modal = None;
                }
                Action::Nothing
            },
        }
    }
}

} // verus!
