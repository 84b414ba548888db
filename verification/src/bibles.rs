//! The data of one Bible: its books, chapters and verses, with
//! the notes and cross references attached to verses.

use vstd::prelude::*;
use crate::text::str_equal;

verus! {

/// A Bible: its metadata, the order of its books and the books by key.
#[derive(Debug, Clone)]
pub struct BibleData {
    pub meta: Meta,
    pub book_order: Vec<String>,
    /// The books, each under its key; a lookup takes the first entry with the
    /// key (`keys_distinct` says that no key repeats).
    pub books: Vec<(String, Book)>,
}

#[derive(Debug, Clone)]
pub struct Meta {
    pub module: String,
    pub generated_at: String,
}

#[derive(Debug, Clone)]
pub struct Book {
    pub name: String,
    pub osis_name: String,
    pub abbreviation: String,
    /// Chapter `c` (counted from one) is `chapters[c - 1]`, verse `v` of it is `[v - 1]`.
    pub chapters: Vec<Vec<Verse>>,
}

/// A verse: its plain text, its notes and its cross references.
#[derive(Debug, Clone)]
pub struct Verse(pub String, pub Vec<Note>, pub Vec<CrossRef>);

/// A note anchored at a byte offset of the verse text.
#[derive(Debug, Clone)]
pub struct Note {
    pub offset: usize,
    pub text: String,
}

/// Cross references anchored at a byte offset of the verse text.
#[derive(Debug, Clone)]
pub struct CrossRef {
    pub offset: usize,
    pub references: Vec<String>,
}

impl Verse {
    /// The plain text of the verse.
    pub fn text(&self) -> (r: &str)
        ensures
            r@ == self.0@,
    {
        self.0.as_str()
    }
}

/// The book stored under `key`: the first entry whose key is `key`.
pub open spec fn book_for_key(books: Seq<(String, Book)>, key: Seq<char>) -> Option<Book>
    decreases books.len(),
{
    if books.len() == 0 {
        None
    } else if books[0].0@ == key {
        Some(books[0].1)
    } else {
        book_for_key(books.drop_first(), key)
    }
}

impl BibleData {
    /// Whether no two books are stored under the same key, as in a map from
    /// keys to books.
    pub open spec fn keys_distinct(&self) -> bool {
        forall|i: int, j: int|
            0 <= i < j < self.books@.len() ==> #[trigger] self.books@[i].0@ != #[trigger] self.books@[j].0@
    }
}

/// With distinct keys, the book stored under each key is the one of its entry.
pub proof fn law_book_under_its_key(bible: BibleData, i: int)
    requires
        bible.keys_distinct(),
        0 <= i < bible.books@.len(),
    ensures
        book_for_key(bible.books@, bible.books@[i].0@) == Some(bible.books@[i].1),
{
    lemma_book_for_key_entry(bible.books@, i);
}

proof fn lemma_book_for_key_entry(books: Seq<(String, Book)>, i: int)
    requires
        0 <= i < books.len(),
        forall|a: int, b: int| 0 <= a < b < books.len() ==> #[trigger] books[a].0@ != #[trigger] books[b].0@,
    ensures
        book_for_key(books, books[i].0@) == Some(books[i].1),
    decreases i,
{
    if i > 0 {
        let rest = books.drop_first();
        assert(books[0].0@ != books[i].0@);
        assert(rest[i - 1] == books[i]);
        assert forall|a: int, b: int| 0 <= a < b < rest.len() implies #[trigger] rest[a].0@ != #[trigger] rest[b].0@ by {
            assert(rest[a] == books[a + 1]);
            assert(rest[b] == books[b + 1]);
        }
        lemma_book_for_key_entry(rest, i - 1);
    }
}

/// Looks up the book stored under `key`.
pub fn find_book<'a>(bible: &'a BibleData, key: &str) -> (r: Option<&'a Book>)
    ensures
        match r {
            Some(b) => book_for_key(bible.books@, key@) == Some(*b),
            None => book_for_key(bible.books@, key@) is None,
        },
{
    let n = bible.books.len();
    let mut i: usize = 0;
    assert(bible.books@.skip(0) =~= bible.books@);
    while i < n
        invariant
            i <= n,
            n == bible.books@.len(),
            book_for_key(bible.books@, key@) == book_for_key(bible.books@.skip(i as int), key@),
        decreases n - i,
    {
        let entry = &bible.books[i];
        assert(bible.books@.skip(i as int)[0] == *entry);
        assert(bible.books@.skip(i as int).drop_first() =~= bible.books@.skip(i + 1));
        if str_equal(entry.0.as_str(), key) {
            return Some(&entry.1);
        }
        i = i + 1;
    }
    None
}

} // verus!
