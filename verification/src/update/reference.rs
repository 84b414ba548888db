//! Decisions on references: typing one, submitting it, following a cross
//! reference, and showing the chapter and verses that a reference names.

use vstd::prelude::*;
use crate::bibles::{book_for_key, find_book, BibleData, Book};
use crate::references::{
    parse_reference, reference_from_groups, regex_captures_of, Reference,
    ReferenceView, REFERENCE_PATTERN,
};
use crate::state::{
    verse_range, verse_range_seq, Action, ActionView, AppState, ReferenceError, ReferenceErrorView,
    StateView,
};
use crate::text::{lowercase_of, str_equal, str_to_lowercase, str_trim, trim_white_space};

verus! {

/// What happens to the reference input.
#[derive(Debug)]
pub enum ReferenceMessage {
    InputChanged(String),
    Submitted,
    CrossRefClicked(String),
}

/// Whether a book goes by `query`: its OSIS name, name or abbreviation, lowercased.
pub open spec fn book_matches(b: Book, query: Seq<char>) -> bool {
    ||| lowercase_of(b.osis_name@) == query
    ||| lowercase_of(b.name@) == query
    ||| lowercase_of(b.abbreviation@) == query
}

/// The position, among the first `n` keys of the book order, of the first key
/// whose book goes by `query`.
pub open spec fn first_matching_key(bible: BibleData, query: Seq<char>, n: int) -> Option<int>
    decreases n,
{
    if n <= 0 {
        None
    } else if first_matching_key(bible, query, n - 1) is Some {
        first_matching_key(bible, query, n - 1)
    } else {
        match book_for_key(bible.books@, bible.book_order@[n - 1]@) {
            Some(b) => if book_matches(b, query) {
                Some(n - 1)
            } else {
                None
            },
            None => None,
        }
    }
}

/// How a reference names its book: trimmed and lowercased.
pub open spec fn reference_query(r: ReferenceView) -> Seq<char> {
    lowercase_of(trim_white_space(r.osis_book))
}

/// The verses a reference selects: from its first verse to its last verse (or
/// the first, whichever is later); `(0, 0)` when it names no verse.
pub open spec fn verse_bounds(r: ReferenceView) -> (usize, usize) {
    match (r.start_verse, r.end_verse) {
        (Some(s), Some(e)) => (s, if e >= s { e } else { s }),
        (Some(s), None) => (s, s),
        (None, _) => (0, 0),
    }
}

/// Where a reference leads in the loaded Bible — the book's key, the
/// chapter (the first when none is named) and the verse bounds — or why it
/// leads nowhere.
pub open spec fn resolve_reference(bible: Option<BibleData>, r: ReferenceView) -> Result<
    (Seq<char>, usize, usize, usize),
    ReferenceErrorView,
> {
    match bible {
        None => Err(ReferenceErrorView::PickBibleFirst),
        Some(b) => {
            let q = reference_query(r);
            match first_matching_key(b, q, b.book_order@.len() as int) {
                None => Err(
                    ReferenceErrorView::NoBookMatching { query: r.osis_book, module: b.meta.module@ },
                ),
                Some(i) => {
                    let key = b.book_order@[i]@;
                    let book = book_for_key(b.books@, key)->0;
                    let chapter: usize = match r.chapter {
                        Some(c) => c,
                        None => 1,
                    };
                    if chapter == 0 || chapter > book.chapters@.len() {
                        Err(ReferenceErrorView::NoChapterInBook { book: book.name@, chapter })
                    } else if r.start_verse == Some(0usize) {
                        Err(ReferenceErrorView::NoVerseZero { book: book.name@, chapter })
                    } else {
                        let count = book.chapters@[chapter - 1]@.len() as usize;
                        let (start, end) = verse_bounds(r);
                        if start > 0 && (start > count || end > count) {
                            Err(
                                ReferenceErrorView::NotEnoughVerses {
                                    book: book.name@,
                                    chapter,
                                    count,
                                },
                            )
                        } else {
                            Ok((key, chapter, start, end))
                        }
                    }
                },
            }
        },
    }
}

/// The state after showing a reference: on success its book and chapter,
/// no dialog, and its verses selected (none when it names none); unchanged
/// on failure.
pub open spec fn apply_reference_spec(s: StateView, r: ReferenceView) -> (StateView, Result<
    (),
    ReferenceErrorView,
>) {
    match resolve_reference(s.bible, r) {
        Err(e) => (s, Err(e)),
        Ok((key, chapter, start, end)) => (
            StateView {
                book_key: Some(key),
                chapter: Some(chapter),
                modal: None,
                selected_verses: if start > 0 {
                    verse_range_seq(start, end)
                } else {
                    Seq::empty()
                },
                selection_anchor: if start > 0 {
                    Some(start)
                } else {
                    None
                },
                ..s
            },
            Ok(()),
        ),
    }
}

/// Whether the verse numbers are increasing: each once, in order.
pub open spec fn strictly_increasing(s: Seq<usize>) -> bool {
    forall|i: int, j: int| 0 <= i < j < s.len() ==> s[i] < s[j]
}

/// A shown reference always leads to a place the Bible has: its book,
/// an existing chapter of it, and selected verses that the chapter has, in
/// increasing order.
pub proof fn law_applied_reference_exists(s: StateView, r: ReferenceView)
    ensures
        apply_reference_spec(s, r).1 is Ok ==> {
            let n = apply_reference_spec(s, r).0;
            &&& s.bible is Some
            &&& n.book_key is Some
            &&& n.chapter is Some
            &&& book_for_key(s.bible->0.books@, n.book_key->0) matches Some(book) && {
                let c = n.chapter->0;
                &&& 1 <= c <= book.chapters@.len()
                &&& forall|i: int|
                    0 <= i < n.selected_verses.len() ==> 1 <= #[trigger] n.selected_verses[i]
                        <= book.chapters@[c - 1]@.len()
            }
            &&& strictly_increasing(n.selected_verses)
        },
{
    if let Some(b) = s.bible {
        let q = reference_query(r);
        if let Some(i) = first_matching_key(b, q, b.book_order@.len() as int) {
            lemma_first_matching_key_found(b, q, b.book_order@.len() as int);
        }
    }
}

/// The state after a reference text was submitted, with `cleared` the state
/// before parsing it: the reference shown, or the error that prevented it.
pub open spec fn follow_reference_text(cleared: StateView, text: Seq<char>) -> StateView {
    match reference_from_groups(regex_captures_of(REFERENCE_PATTERN@, text)) {
        Some(rv) => {
            let (next, res) = apply_reference_spec(cleared, rv);
            match res {
                Ok(()) => next,
                Err(e) => StateView { reference_error: Some(e), ..cleared },
            }
        },
        None => StateView {
            reference_error: Some(ReferenceErrorView::CouldntUnderstand { reference: text }),
            ..cleared
        },
    }
}

/// A reference result as plain values.
pub open spec fn reference_result_view(r: Result<(), ReferenceError>) -> Result<(), ReferenceErrorView> {
    match r {
        Ok(()) => Ok(()),
        Err(e) => Err(e@),
    }
}

fn book_goes_by(b: &Book, query: &str) -> (r: bool)
    ensures
        r == book_matches(*b, query@),
{
    let osis = str_to_lowercase(b.osis_name.as_str());
    if str_equal(osis.as_str(), query) {
        return true;
    }
    let name = str_to_lowercase(b.name.as_str());
    if str_equal(name.as_str(), query) {
        return true;
    }
    let abbr = str_to_lowercase(b.abbreviation.as_str());
    str_equal(abbr.as_str(), query)
}

proof fn lemma_first_matching_key_stays(bible: BibleData, query: Seq<char>, m: int, n: int)
    requires
        0 <= m <= n,
        first_matching_key(bible, query, m) is Some,
    ensures
        first_matching_key(bible, query, n) == first_matching_key(bible, query, m),
    decreases n - m,
{
    if n > m {
        lemma_first_matching_key_stays(bible, query, m, n - 1);
    }
}

pub proof fn lemma_first_matching_key_found(bible: BibleData, query: Seq<char>, n: int)
    requires
        first_matching_key(bible, query, n) is Some,
    ensures
        0 <= first_matching_key(bible, query, n)->0 < n,
        book_for_key(bible.books@, bible.book_order@[first_matching_key(bible, query, n)->0]@)
            is Some,
    decreases n,
{
    if n > 0 && first_matching_key(bible, query, n - 1) is Some {
        lemma_first_matching_key_found(bible, query, n - 1);
    }
}

/// Whether the book of the `i`-th key of the book order goes by `query`.
pub open spec fn key_goes_by(bible: BibleData, i: int, query: Seq<char>) -> bool {
    match book_for_key(bible.books@, bible.book_order@[i]@) {
        Some(b) => book_matches(b, query),
        None => false,
    }
}

/// How many chapters the book of the `i`-th key of the book order has.
pub open spec fn key_chapter_count(bible: BibleData, i: int) -> nat {
    match book_for_key(bible.books@, bible.book_order@[i]@) {
        Some(b) => b.chapters@.len(),
        None => 0,
    }
}

/// The key that a lookup finds is one whose book goes by `query`; it finds
/// none only when no book among the first `n` keys does.
proof fn lemma_first_matching_key_exact(bible: BibleData, query: Seq<char>, n: int)
    ensures
        match first_matching_key(bible, query, n) {
            Some(i) => 0 <= i < n && key_goes_by(bible, i, query),
            None => forall|i: int| 0 <= i < n ==> !#[trigger] key_goes_by(bible, i, query),
        },
    decreases n,
{
    if n > 0 {
        lemma_first_matching_key_exact(bible, query, n - 1);
    }
}

/// A reference that names a book of the loaded Bible but no chapter opens
/// the first chapter of that book: when the books it goes by all have a
/// chapter, and it names no verse, it is shown, at chapter 1, with no verse
/// selected and a book that goes by the name it gives.
pub proof fn law_reference_without_chapter_opens_first(s: StateView, r: ReferenceView)
    requires
        s.bible is Some,
        r.chapter is None,
        r.start_verse is None,
        exists|i: int|
            0 <= i < s.bible->0.book_order@.len() && #[trigger] key_goes_by(
                s.bible->0,
                i,
                reference_query(r),
            ),
        forall|i: int|
            0 <= i < s.bible->0.book_order@.len() && #[trigger] key_goes_by(
                s.bible->0,
                i,
                reference_query(r),
            ) ==> key_chapter_count(s.bible->0, i) >= 1,
    ensures
        apply_reference_spec(s, r).1 is Ok,
        apply_reference_spec(s, r).0.chapter == Some(1usize),
        apply_reference_spec(s, r).0.selected_verses.len() == 0,
        exists|i: int|
            0 <= i < s.bible->0.book_order@.len() && #[trigger] key_goes_by(
                s.bible->0,
                i,
                reference_query(r),
            ) && apply_reference_spec(s, r).0.book_key == Some(s.bible->0.book_order@[i]@),
{
    let b = s.bible->0;
    lemma_first_matching_key_exact(b, reference_query(r), b.book_order@.len() as int);
}

/// The position in the book order of the first book that goes by `query`.
pub fn find_matching_key(bible: &BibleData, query: &str) -> (r: Option<usize>)
    ensures
        match r {
            Some(i) => first_matching_key(*bible, query@, bible.book_order@.len() as int) == Some(
                i as int,
            ),
            None => first_matching_key(*bible, query@, bible.book_order@.len() as int) is None,
        },
{
    let n = bible.book_order.len();
    let mut i: usize = 0;
    while i < n
        invariant
            i <= n,
            n == bible.book_order@.len(),
            first_matching_key(*bible, query@, i as int) is None,
        decreases n - i,
    {
        match find_book(bible, bible.book_order[i].as_str()) {
            Some(b) => {
                if book_goes_by(b, query) {
                    proof {
                        lemma_first_matching_key_stays(*bible, query@, i + 1, n as int);
                    }
                    return Some(i);
                }
            },
            None => {},
        }
        i = i + 1;
    }
    None
}

/// How a message about the reference input changes the state and what it asks for.
pub open spec fn reference_transition(
    old: StateView,
    message: ReferenceMessage,
    new: StateView,
    r: ActionView,
) -> bool {
    &&& r == ActionView::Nothing
    &&& match message {
        ReferenceMessage::InputChanged(t) => new == (StateView {
            reference_text: t@,
            reference_error: None,
            ..old
        }),
        ReferenceMessage::Submitted => new == follow_reference_text(
            StateView { reference_error: None, ..old },
            old.reference_text,
        ),
        ReferenceMessage::CrossRefClicked(t) => new == follow_reference_text(
            StateView { modal: None, ..old },
            t@,
        ),
    }
}

impl AppState {
    /// Shows the book, chapter and verses that `reference` names in the loaded
    /// Bible, or says why it cannot.
    pub fn apply_reference(&mut self, reference: Reference) -> (r: Result<(), ReferenceError>)
        ensures
            (final(self)@, reference_result_view(r)) == apply_reference_spec(old(self)@, reference@),
    {
        let (key, chapter, start, end) = match self.resolve(&reference) {
            Ok(t) => t,
            Err(e) => return Err(e),
        };
        self.book_key = Some(key);
        self.chapter = Some(chapter);
        self.modal = None;
        if start > 0 {
            self.selected_verses = verse_range(start, end);
            self.selection_anchor = Some(start);
        } else {
            self.selected_verses = Vec::new();
            self.selection_anchor = None;
        }
        proof {
            if start == 0 {
                assert(self.selected_verses@ =~= Seq::<usize>::empty());
            }
        }
        Ok(())
    }

    fn resolve(&self, reference: &Reference) -> (r: Result<(String, usize, usize, usize), ReferenceError>)
        ensures
            match resolve_reference(self.bible, reference@) {
                Ok((key, chapter, start, end)) => r matches Ok((k, c, s, e)) && k@ == key && c
                    == chapter && s == start && e == end,
                Err(ev) => r matches Err(er) && er@ == ev,
            },
    {
        let bible = match &self.bible {
            Some(b) => b,
            None => return Err(ReferenceError::PickBibleFirst),
        };
        let query = str_to_lowercase(str_trim(reference.osis_book.as_str()));
        let i = match find_matching_key(bible, query.as_str()) {
            Some(i) => i,
            None => {
                return Err(
                    ReferenceError::NoBookMatching {
                        query: reference.osis_book.clone(),
                        module: bible.meta.module.clone(),
                    },
                );
            },
        };
        proof {
            lemma_first_matching_key_found(*bible, query@, bible.book_order@.len() as int);
        }
        let key = &bible.book_order[i];
        let book = match find_book(bible, key.as_str()) {
            Some(b) => b,
            None => {
                assert(false);
                return Err(ReferenceError::PickBibleFirst);
            },
        };
        let chapter: usize = match reference.chapter {
            Some(c) => c,
            None => 1,
        };
        if chapter == 0 || chapter > book.chapters.len() {
            return Err(ReferenceError::NoChapterInBook { book: book.name.clone(), chapter });
        }
        if reference.start_verse == Some(0) {
            return Err(ReferenceError::NoVerseZero { book: book.name.clone(), chapter });
        }
        let count = book.chapters[chapter - 1].len();
        let (start, end) = match (reference.start_verse, reference.end_verse) {
            (Some(s), Some(e)) => (s, if e >= s { e } else { s }),
            (Some(s), None) => (s, s),
            (None, _) => (0, 0),
        };
        if start > 0 && (start > count || end > count) {
            return Err(
                ReferenceError::NotEnoughVerses { book: book.name.clone(), chapter, count },
            );
        }
        Ok((key.clone(), chapter, start, end))
    }

    /// Submits `text` as a reference: shows it, or records why it cannot be shown.
    fn follow_reference(&mut self, text: &str)
        ensures
            final(self)@ == follow_reference_text(old(self)@, text@),
    {
        match parse_reference(text) {
            Some(reference) => {
                match self.apply_reference(reference) {
                    Ok(()) => {},
                    Err(e) => {
                        self.reference_error = Some(e);
                    },
                }
            },
            None => {
                self.reference_error = Some(
                    ReferenceError::CouldntUnderstand { reference: text.to_owned() },
                );
            },
        }
    }

    /// Decides on a message about the reference input.
    pub fn update_reference(&mut self, message: ReferenceMessage) -> (r: Action)
        ensures
            reference_transition(old(self)@, message, final(self)@, r@),
    {
        match message {
            ReferenceMessage::InputChanged(t) => {
                self.reference_text = t;
                self.reference_error = None;
            },
            ReferenceMessage::Submitted => {
                self.reference_error = None;
                let text = self.reference_text.clone();
                self.follow_reference(text.as_str());
            },
            ReferenceMessage::CrossRefClicked(t) => {
                self.modal = None;
                self.follow_reference(t.as_str());
            },
        }
        Action::Nothing
    }
}

} // verus!
