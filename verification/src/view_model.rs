//! What the reader's views show, computed from the state: dropdown options
//! and selections, labels of bookmarks and search results, the preview of a
//! cross reference, and keyboard shortcuts.

use vstd::prelude::*;
use vstd::string::StringExecFns;
use crate::bibles::{book_for_key, find_book, BibleData, Book, Verse};
use crate::footnotes::{segments_view, verse_segments, verse_segments_spec, SegmentView, VerseSegment};
use crate::config::{Bookmark, CopyIncludeReferencePolicy};
use crate::library::catalog::IndexedBible;
use crate::library::library::InstalledBible;
use crate::references::{parse_reference, reference_from_groups, regex_captures_of, REFERENCE_PATTERN};
use crate::search_index::SearchResult;
use crate::state::{contains_verse, ActionView, AppState, StateView};
use crate::text::{str_equal, decimal_digits, push_char, push_decimal, str_to_lowercase, str_trim};
use crate::update::reference::{first_matching_key, reference_query};
use crate::update::bible::{bible_transition, BibleMessage};
use crate::update::search::SearchMessage;
use crate::update::verse::VerseMessage;
use crate::update::Message;

verus! {

fn push_str(s: &mut String, t: &str)
    ensures
        final(s)@ == old(s)@ + t@,
{
    s.append(t);
}

/// `name chapter`, then `:first` and `-last` for the verses given.
pub open spec fn place_label(name: Seq<char>, chapter: usize, start: Option<usize>, end: Option<usize>) -> Seq<char> {
    let head = name + seq![' '] + decimal_digits(chapter as nat);
    match (start, end) {
        (Some(s), Some(e)) => if e == s {
            head + seq![':'] + decimal_digits(s as nat)
        } else {
            head + seq![':'] + decimal_digits(s as nat) + seq!['-'] + decimal_digits(e as nat)
        },
        (Some(s), None) => head + seq![':'] + decimal_digits(s as nat),
        _ => head,
    }
}

/// Writes `place_label`.
pub fn place_text(name: &str, chapter: usize, start: Option<usize>, end: Option<usize>) -> (r: String)
    ensures
        r@ == place_label(name@, chapter, start, end),
{
    let mut s = String::new();
    push_str(&mut s, name);
    push_char(&mut s, ' ');
    push_decimal(&mut s, chapter);
    let ghost head = name@ + seq![' '] + decimal_digits(chapter as nat);
    assert(s@ =~= head);
    match (start, end) {
        (Some(v), Some(e)) => {
            push_char(&mut s, ':');
            push_decimal(&mut s, v);
            if e != v {
                push_char(&mut s, '-');
                push_decimal(&mut s, e);
                assert(s@ =~= head + seq![':'] + decimal_digits(v as nat) + seq!['-'] + decimal_digits(e as nat));
            } else {
                assert(s@ =~= head + seq![':'] + decimal_digits(v as nat));
            }
        },
        (Some(v), None) => {
            push_char(&mut s, ':');
            push_decimal(&mut s, v);
            assert(s@ =~= head + seq![':'] + decimal_digits(v as nat));
        },
        _ => {},
    }
    s
}

/// The name a bookmark shows for its book: the book's name in the loaded
/// Bible, else its key.
pub open spec fn bookmark_book_name(bible: Option<BibleData>, key: Seq<char>) -> Seq<char> {
    match bible {
        Some(b) => match book_for_key(b.books@, key) {
            Some(book) => book.name@,
            None => key,
        },
        None => key,
    }
}

/// The label of a bookmark in the list: `Book chapter`, with `:verse` or
/// `:first-last` when it has a verse range.
pub open spec fn bookmark_label_spec(bible: Option<BibleData>, b: Bookmark) -> Seq<char> {
    let name = bookmark_book_name(bible, b.book_key@);
    match (b.verse_start, b.verse_end) {
        (Some(s), Some(e)) => place_label(name, b.chapter, Some(s), Some(e)),
        _ => place_label(name, b.chapter, None, None),
    }
}

/// The label of a bookmark in the list.
pub fn bookmark_label(bible: &Option<BibleData>, b: &Bookmark) -> (r: String)
    ensures
        r@ == bookmark_label_spec(*bible, *b),
{
    let found = match bible {
        Some(data) => find_book(data, b.book_key.as_str()),
        None => None,
    };
    let name: &str = match found {
        Some(book) => book.name.as_str(),
        None => b.book_key.as_str(),
    };
    match (b.verse_start, b.verse_end) {
        (Some(s), Some(e)) => place_text(name, b.chapter, Some(s), Some(e)),
        _ => place_text(name, b.chapter, None, None),
    }
}

/// The label of a search result: `Book chapter:verse`.
pub fn search_result_label(r: &SearchResult) -> (s: String)
    ensures
        s@ == place_label(r.book_name@, r.chapter, Some(r.verse), None),
{
    place_text(r.book_name.as_str(), r.chapter, Some(r.verse), None)
}

/// The label of a cross reference's preview: `Book chapter:first-last` when
/// the last verse is after the first, `Book chapter:verse` with a verse,
/// `Book chapter` without.
pub open spec fn preview_label(name: Seq<char>, chapter: usize, start: Option<usize>, end: Option<usize>) -> Seq<char> {
    match (start, end) {
        (Some(s), Some(e)) => if e > s {
            place_label(name, chapter, Some(s), Some(e))
        } else {
            place_label(name, chapter, Some(s), None)
        },
        (Some(s), None) => place_label(name, chapter, Some(s), None),
        _ => place_label(name, chapter, None, None),
    }
}

/// The preview of a cross reference in the loaded Bible: its label and
/// the text of its first verse (the first of the chapter when it names none).
/// Nothing when no Bible is loaded, the text is not a reference, or the
/// Bible lacks the book, the chapter or the verse.
pub open spec fn preview_spec(bible: Option<BibleData>, raw: Seq<char>) -> Option<(Seq<char>, Seq<char>)> {
    match bible {
        None => None,
        Some(b) => match reference_from_groups(regex_captures_of(REFERENCE_PATTERN@, raw)) {
            None => None,
            Some(r) => match first_matching_key(b, reference_query(r), b.book_order@.len() as int) {
                None => None,
                Some(i) => match book_for_key(b.books@, b.book_order@[i]@) {
                    None => None,
                    Some(book) => {
                        let chapter: usize = match r.chapter {
                            Some(c) => c,
                            None => 1,
                        };
                        let start: usize = match r.start_verse {
                            Some(s) => s,
                            None => 1,
                        };
                        if chapter < 1 || chapter > book.chapters@.len() {
                            None
                        } else {
                            let verses = book.chapters@[chapter - 1]@;
                            if start < 1 || start > verses.len() {
                                None
                            } else {
                                Some(
                                    (
                                        preview_label(book.name@, chapter, r.start_verse, r.end_verse),
                                        verses[start - 1].0@,
                                    ),
                                )
                            }
                        }
                    },
                },
            },
        },
    }
}

impl AppState {
    /// The label and first verse text of the cross reference `raw`.
    pub fn preview_for_reference(&self, raw: &str) -> (r: Option<(String, String)>)
        ensures
            match r {
                Some((l, t)) => preview_spec(self.bible, raw@) == Some((l@, t@)),
                None => preview_spec(self.bible, raw@) is None,
            },
    {
        let bible = match &self.bible {
            Some(b) => b,
            None => return None,
        };
        let reference = match parse_reference(raw) {
            Some(r) => r,
            None => return None,
        };
        let query = str_to_lowercase(str_trim(reference.osis_book.as_str()));
        let i = match crate::update::reference::find_matching_key(bible, query.as_str()) {
            Some(i) => i,
            None => return None,
        };
        proof {
            crate::update::reference::lemma_first_matching_key_found(
                *bible,
                query@,
                bible.book_order@.len() as int,
            );
        }
        let book = match find_book(bible, bible.book_order[i].as_str()) {
            Some(b) => b,
            None => return None,
        };
        let chapter: usize = match reference.chapter {
            Some(c) => c,
            None => 1,
        };
        let start: usize = match reference.start_verse {
            Some(s) => s,
            None => 1,
        };
        if chapter < 1 || chapter > book.chapters.len() {
            return None;
        }
        let verses = &book.chapters[chapter - 1];
        if start < 1 || start > verses.len() {
            return None;
        }
        let label = match (reference.start_verse, reference.end_verse) {
            (Some(s), Some(e)) => if e > s {
                place_text(book.name.as_str(), chapter, Some(s), Some(e))
            } else {
                place_text(book.name.as_str(), chapter, Some(s), None)
            },
            (Some(s), None) => place_text(book.name.as_str(), chapter, Some(s), None),
            _ => place_text(book.name.as_str(), chapter, None, None),
        };
        Some((label, verses[start - 1].0.clone()))
    }
}

/// The names of the books of a Bible, in its book order (keys without a book are left out).
pub open spec fn book_names(bible: BibleData, n: int) -> Seq<Seq<char>>
    decreases n,
{
    if n <= 0 {
        Seq::empty()
    } else {
        match book_for_key(bible.books@, bible.book_order@[n - 1]@) {
            Some(b) => book_names(bible, n - 1).push(b.name@),
            None => book_names(bible, n - 1),
        }
    }
}

/// The options of the book dropdown: the names of the books, in the book order.
pub fn book_options(bible: &BibleData) -> (r: Vec<String>)
    ensures
        r@.map_values(|s: String| s@) == book_names(*bible, bible.book_order@.len() as int),
{
    let n = bible.book_order.len();
    let mut out: Vec<String> = Vec::new();
    let mut i: usize = 0;
    while i < n
        invariant
            i <= n,
            n == bible.book_order@.len(),
            out@.map_values(|s: String| s@) == book_names(*bible, i as int),
        decreases n - i,
    {
        match find_book(bible, bible.book_order[i].as_str()) {
            Some(b) => {
                let ghost before = out@.map_values(|s: String| s@);
                out.push(b.name.clone());
                assert(out@.map_values(|s: String| s@) =~= before.push(b.name@));
            },
            None => {},
        }
        i = i + 1;
    }
    out
}

/// Where `key` stands in the list `keys`, first occurrence.
pub open spec fn position_of(keys: Seq<Seq<char>>, key: Seq<char>, n: int) -> Option<usize>
    decreases n,
{
    if n <= 0 {
        None
    } else if position_of(keys, key, n - 1) is Some {
        position_of(keys, key, n - 1)
    } else if keys[n - 1] == key {
        Some((n - 1) as usize)
    } else {
        None
    }
}

proof fn lemma_position_of_stays(keys: Seq<Seq<char>>, key: Seq<char>, m: int, n: int)
    requires
        0 <= m <= n,
        position_of(keys, key, m) is Some,
    ensures
        position_of(keys, key, n) == position_of(keys, key, m),
    decreases n - m,
{
    if n > m {
        lemma_position_of_stays(keys, key, m, n - 1);
    }
}

proof fn lemma_position_of_found(keys: Seq<Seq<char>>, key: Seq<char>, n: int)
    requires
        n <= keys.len(),
        n <= usize::MAX,
        position_of(keys, key, n) is Some,
    ensures
        (position_of(keys, key, n)->0 as int) < n,
        keys[position_of(keys, key, n)->0 as int] == key,
    decreases n,
{
    if position_of(keys, key, n - 1) is Some {
        lemma_position_of_found(keys, key, n - 1);
    }
}

/// Where `key` first stands among `keys`.
pub fn position_in(keys: &Vec<String>, key: &str) -> (r: Option<usize>)
    ensures
        r == position_of(keys@.map_values(|s: String| s@), key@, keys@.len() as int),
{
    let ghost ks = keys@.map_values(|s: String| s@);
    let n = keys.len();
    let mut i: usize = 0;
    while i < n
        invariant
            i <= n,
            n == keys@.len(),
            ks == keys@.map_values(|s: String| s@),
            position_of(ks, key@, i as int) is None,
        decreases n - i,
    {
        if crate::text::str_equal(keys[i].as_str(), key) {
            assert(ks[i as int] == keys@[i as int]@);
            proof {
                lemma_position_of_stays(ks, key@, i + 1, n as int);
            }
            return Some(i);
        }
        assert(ks[i as int] == keys@[i as int]@);
        i = i + 1;
    }
    None
}

/// The position of the open book in the book order, for the book dropdown.
pub fn selected_book_position(bible: &BibleData, book_key: &Option<String>) -> (r: Option<usize>)
    ensures
        r == match book_key {
            Some(k) => position_of(
                bible.book_order@.map_values(|s: String| s@),
                k@,
                bible.book_order@.len() as int,
            ),
            None => None,
        },
{
    match book_key {
        Some(k) => position_in(&bible.book_order, k.as_str()),
        None => None,
    }
}

/// The options of the chapter dropdown: `1` to the number of chapters.
pub fn chapter_options(book: &Book) -> (r: Vec<String>)
    ensures
        r@.len() == book.chapters@.len(),
        forall|i: int| 0 <= i < r@.len() ==> #[trigger] r@[i]@ == decimal_digits((i + 1) as nat),
{
    let n = book.chapters.len();
    let mut out: Vec<String> = Vec::new();
    let mut i: usize = 0;
    while i < n
        invariant
            i <= n,
            n == book.chapters@.len(),
            out@.len() == i,
            forall|j: int| 0 <= j < i ==> #[trigger] out@[j]@ == decimal_digits((j + 1) as nat),
        decreases n - i,
    {
        out.push(crate::text::usize_to_string(i + 1));
        i = i + 1;
    }
    out
}

/// The position of the open chapter in the chapter dropdown.
pub fn selected_chapter_position(chapter: Option<usize>) -> (r: Option<usize>)
    requires
        chapter != Some(0usize),
    ensures
        r == match chapter {
            Some(c) => Some((c - 1) as usize),
            None => None,
        },
{
    match chapter {
        Some(c) => Some(c - 1),
        None => None,
    }
}

/// The position of a copy policy in its dropdown: none, top, bottom.
pub open spec fn policy_index(p: CopyIncludeReferencePolicy) -> usize {
    match p {
        CopyIncludeReferencePolicy::DoNot => 0,
        CopyIncludeReferencePolicy::Top => 1,
        CopyIncludeReferencePolicy::Bottom => 2,
    }
}

/// The copy policy at a position of its dropdown; any other position means none.
pub open spec fn policy_at_index(idx: usize) -> CopyIncludeReferencePolicy {
    if idx == 1 {
        CopyIncludeReferencePolicy::Top
    } else if idx == 2 {
        CopyIncludeReferencePolicy::Bottom
    } else {
        CopyIncludeReferencePolicy::DoNot
    }
}

/// The position of a copy policy in its dropdown.
pub fn policy_position(p: &CopyIncludeReferencePolicy) -> (r: usize)
    ensures
        r == policy_index(*p),
{
    match p {
        CopyIncludeReferencePolicy::DoNot => 0,
        CopyIncludeReferencePolicy::Top => 1,
        CopyIncludeReferencePolicy::Bottom => 2,
    }
}

/// The copy policy chosen at a position of its dropdown; any other position
/// means none.
pub fn policy_at(idx: usize) -> (r: CopyIncludeReferencePolicy)
    ensures
        r == policy_at_index(idx),
{
    if idx == 1 {
        CopyIncludeReferencePolicy::Top
    } else if idx == 2 {
        CopyIncludeReferencePolicy::Bottom
    } else {
        CopyIncludeReferencePolicy::DoNot
    }
}

/// The copy policy dropdown shows the policy in force: choosing the position
/// it marks chooses that same policy.
pub proof fn law_policy_dropdown_round_trip(p: CopyIncludeReferencePolicy)
    ensures
        policy_at_index(policy_index(p)) == p,
{
}

/// The book dropdown marks the open book: choosing the position it marks
/// opens that same book again.
pub proof fn law_book_dropdown_marks_open_book(s: StateView, new: StateView, r: ActionView)
    requires
        s.bible is Some,
        s.book_key is Some,
        position_of(
            s.bible->0.book_order@.map_values(|k: String| k@),
            s.book_key->0,
            s.bible->0.book_order@.len() as int,
        ) is Some,
        bible_transition(
            s,
            BibleMessage::SelectBookIndex(
                position_of(
                    s.bible->0.book_order@.map_values(|k: String| k@),
                    s.book_key->0,
                    s.bible->0.book_order@.len() as int,
                )->0,
            ),
            new,
            r,
        ),
    ensures
        new.book_key == s.book_key,
{
    let order = s.bible->0.book_order;
    let keys = order@.map_values(|k: String| k@);
    assert(order@.len() == order.len());
    lemma_position_of_found(keys, s.book_key->0, keys.len() as int);
}

/// The chapter dropdown marks the open chapter: choosing the position it
/// marks opens that same chapter again.
pub proof fn law_chapter_dropdown_marks_open_chapter(
    c: usize,
    s: StateView,
    new: StateView,
    r: ActionView,
)
    requires
        c >= 1,
        bible_transition(s, BibleMessage::SelectChapterIndex((c - 1) as usize), new, r),
    ensures
        new.chapter == Some(c),
{
}

/// Where a catalog entry is downloaded from: its first link, or nothing.
pub fn download_url(entry: &IndexedBible) -> (r: String)
    ensures
        r@ == if entry.download_links@.len() > 0 {
            entry.download_links@[0]@
        } else {
            Seq::empty()
        },
{
    if entry.download_links.len() > 0 {
        entry.download_links[0].clone()
    } else {
        String::new()
    }
}

/// A verse as the chapter view shows it: its number, its segments, whether it
/// is selected and whether its popup is open.
#[derive(Debug)]
pub struct VerseRow {
    pub number: usize,
    pub segments: Vec<VerseSegment>,
    pub selected: bool,
    pub popup_open: bool,
}

/// A verse row as plain values.
pub type VerseRowView = (usize, Seq<SegmentView>, bool, bool);

impl View for VerseRow {
    type V = VerseRowView;

    open spec fn view(&self) -> VerseRowView {
        (self.number, segments_view(self.segments@), self.selected, self.popup_open)
    }
}

/// What the chapter view shows.
#[derive(Debug)]
pub enum ChapterView {
    /// No Bible, book or chapter is chosen: ask for them.
    ChooseChapter,
    /// The Bible has no book under the chosen key.
    UnknownBook,
    /// The book has no chapter with the chosen number.
    UnknownChapter,
    /// The verses of the chapter, in order.
    Verses(Vec<VerseRow>),
}

/// The row of verse `number` with the text `v`, in the state `s`.
pub open spec fn verse_row_spec(s: StateView, number: usize, v: Verse) -> VerseRowView {
    (
        number,
        verse_segments_spec(v, s.config.show_footnotes),
        s.selected_verses.contains(number),
        match s.verse_popup {
            Some((p, _)) => p == number,
            None => false,
        },
    )
}

/// The chapter that the state has open, when a Bible, a book and a chapter
/// are chosen and the Bible has them.
pub open spec fn open_chapter(s: StateView) -> Option<Seq<Verse>> {
    match (s.bible, s.book_key, s.chapter) {
        (Some(b), Some(k), Some(c)) => match book_for_key(b.books@, k) {
            Some(book) => if 1 <= c <= book.chapters@.len() {
                Some(book.chapters@[c - 1]@)
            } else {
                None
            },
            None => None,
        },
        _ => None,
    }
}

impl AppState {
    /// What the chapter view shows: a prompt when no Bible, book or chapter is
    /// chosen, a notice when the book or the chapter is unknown (chapters are
    /// numbered from one), else one row per verse, numbered from one.
    pub fn chapter_view(&self) -> (r: ChapterView)
        ensures
            match r {
                ChapterView::ChooseChapter => self@.bible is None || self@.book_key is None
                    || self@.chapter is None,
                ChapterView::UnknownBook => self@.bible is Some && self@.book_key is Some
                    && self@.chapter is Some && book_for_key(
                    self@.bible->0.books@,
                    self@.book_key->0,
                ) is None,
                ChapterView::UnknownChapter => self@.bible is Some && self@.book_key is Some
                    && self@.chapter is Some && book_for_key(
                    self@.bible->0.books@,
                    self@.book_key->0,
                ) is Some && open_chapter(self@) is None,
                ChapterView::Verses(rows) => open_chapter(self@) matches Some(verses) && rows@.len()
                    == verses.len() && forall|i: int|
                    0 <= i < verses.len() ==> #[trigger] rows@[i]@ == verse_row_spec(
                        self@,
                        (i + 1) as usize,
                        verses[i],
                    ),
            },
    {
        let (bible, key, chapter) = match (&self.bible, &self.book_key, self.chapter) {
            (Some(b), Some(k), Some(c)) => (b, k, c),
            _ => return ChapterView::ChooseChapter,
        };
        let book = match find_book(bible, key.as_str()) {
            Some(b) => b,
            None => return ChapterView::UnknownBook,
        };
        if chapter == 0 || chapter > book.chapters.len() {
            return ChapterView::UnknownChapter;
        }
        let verses = &book.chapters[chapter - 1];
        let popup: Option<usize> = match &self.verse_popup {
            Some((p, _)) => Some(*p),
            None => None,
        };
        let mut rows: Vec<VerseRow> = Vec::new();
        let n = verses.len();
        let mut i: usize = 0;
        while i < n
            invariant
                i <= n,
                n == verses@.len(),
                open_chapter(self@) == Some(verses@),
                popup == match self@.verse_popup {
                    Some((p, _)) => Some(p),
                    None => None::<usize>,
                },
                rows@.len() == i,
                forall|j: int|
                    0 <= j < i ==> #[trigger] rows@[j]@ == verse_row_spec(
                        self@,
                        (j + 1) as usize,
                        verses@[j],
                    ),
            decreases n - i,
        {
            let number = i + 1;
            let row = VerseRow {
                number,
                segments: verse_segments(&verses[i], self.config.show_footnotes),
                selected: contains_verse(&self.selected_verses, number),
                popup_open: match popup {
                    Some(p) => p == number,
                    None => false,
                },
            };
            rows.push(row);
            i = i + 1;
        }
        ChapterView::Verses(rows)
    }
}

/// A row of the installed Bibles in the Bible manager: the Bible's name,
/// whether it is the chosen one (shown as such), else the message that
/// chooses it, and the message that deletes it.
#[derive(Debug)]
pub struct InstalledRow {
    pub name: String,
    pub current: bool,
    pub select: Option<Message>,
    pub delete: Message,
}

/// Whether `row` is the row of the installed Bible `ib` when `selected` is
/// the chosen Bible.
pub open spec fn installed_row_spec(row: InstalledRow, ib: InstalledBible, selected: Option<Seq<char>>) -> bool {
    &&& row.name@ == ib.name@
    &&& row.current == (selected == Some(ib.name@))
    &&& if row.current {
        row.select is None
    } else {
        row.select matches Some(Message::Bible(BibleMessage::SelectInstalled(n))) && n@ == ib.name@
    }
    &&& row.delete matches Message::Bible(BibleMessage::Delete(n)) && n@ == ib.name@
}

impl AppState {
    /// The rows of the installed Bibles, in order: the chosen one marked as
    /// current, each other one with the message that chooses it, and each
    /// with the message that deletes it.
    pub fn installed_rows(&self) -> (r: Vec<InstalledRow>)
        ensures
            r@.len() == self@.installed_bibles.len(),
            forall|i: int|
                0 <= i < r@.len() ==> #[trigger] installed_row_spec(
                    r@[i],
                    self@.installed_bibles[i],
                    self@.config.selected_bible,
                ),
    {
        let mut rows: Vec<InstalledRow> = Vec::new();
        let n = self.installed_bibles.len();
        let mut i: usize = 0;
        while i < n
            invariant
                i <= n,
                n == self@.installed_bibles.len(),
                rows@.len() == i,
                forall|j: int|
                    0 <= j < i ==> #[trigger] installed_row_spec(
                        rows@[j],
                        self@.installed_bibles[j],
                        self@.config.selected_bible,
                    ),
            decreases n - i,
        {
            let ib = &self.installed_bibles[i];
            let current = match &self.config.selected_bible {
                Some(sel) => str_equal(sel.as_str(), ib.name.as_str()),
                None => false,
            };
            let select = if current {
                None
            } else {
                Some(Message::Bible(BibleMessage::SelectInstalled(ib.name.clone())))
            };
            let row = InstalledRow {
                name: ib.name.clone(),
                current,
                select,
                delete: Message::Bible(BibleMessage::Delete(ib.name.clone())),
            };
            rows.push(row);
            i = i + 1;
        }
        rows
    }
}

/// What the Bible manager offers for a catalog entry.
#[derive(Debug)]
pub enum CatalogEntryState {
    /// The Bible is installed already.
    Installed,
    /// The Bible is being downloaded.
    Downloading,
    /// The Bible can be downloaded: the message that starts it.
    Available(Message),
}

/// Whether the Bible being downloaded is the one called `name`.
pub open spec fn is_downloading(downloading: Option<String>, name: Seq<char>) -> bool {
    match downloading {
        Some(d) => d@ == name,
        None => false,
    }
}

/// What is offered for a catalog entry, given whether a Bible of its name is
/// installed and which Bible is being downloaded: nothing to do when it is
/// installed or being downloaded, else its download from its first link.
pub fn catalog_entry_state(entry: &IndexedBible, installed: bool, downloading: &Option<String>) -> (r:
    CatalogEntryState)
    ensures
        installed ==> r is Installed,
        !installed && is_downloading(*downloading, entry.name@) ==> r is Downloading,
        !installed && !is_downloading(*downloading, entry.name@) ==> match r {
            CatalogEntryState::Available(Message::Bible(BibleMessage::Download(name, url))) => {
                &&& name@ == entry.name@
                &&& url@ == (if entry.download_links@.len() > 0 {
                    entry.download_links@[0]@
                } else {
                    Seq::empty()
                })
            },
            _ => false,
        },
{
    if installed {
        return CatalogEntryState::Installed;
    }
    let busy = match downloading {
        Some(d) => str_equal(d.as_str(), entry.name.as_str()),
        None => false,
    };
    if busy {
        CatalogEntryState::Downloading
    } else {
        CatalogEntryState::Available(
            Message::Bible(BibleMessage::Download(entry.name.clone(), download_url(entry))),
        )
    }
}

/// The message a keyboard shortcut sends: with the command key, `c` copies
/// the selection and `f` opens or closes the search.
pub fn shortcut_message(command_held: bool, key: char) -> (r: Option<Message>)
    ensures
        match r {
            Some(Message::Verse(VerseMessage::CopySelection)) => command_held && key == 'c',
            Some(Message::Search(SearchMessage::Toggle)) => command_held && key == 'f',
            Some(_) => false,
            None => !(command_held && (key == 'c' || key == 'f')),
        },
{
    if command_held && key == 'c' {
        Some(Message::Verse(VerseMessage::CopySelection))
    } else if command_held && key == 'f' {
        Some(Message::Search(SearchMessage::Toggle))
    } else {
        None
    }
}

} // verus!
