//! Full-text search over the verses of a Bible, with `tantivy`: one
//! document per verse, carrying its book, chapter, verse number and text.

use tantivy::schema::{Field, Schema, SchemaBuilder, Value};
use tantivy::{DocAddress, Index, IndexReader, IndexWriter, Searcher, TantivyDocument, TantivyError};
use vstd::prelude::*;
use crate::bibles::{book_for_key, find_book, BibleData, Book, Verse};

verus! {

#[verifier::external_type_specification]
#[verifier::external_body]
pub struct ExIndex(Index);

#[verifier::external_type_specification]
#[verifier::external_body]
pub struct ExIndexReader(IndexReader);

#[verifier::external_type_specification]
#[verifier::external_body]
pub struct ExField(Field);

#[verifier::external_type_specification]
#[verifier::external_body]
pub struct ExSchema(Schema);

#[verifier::external_type_specification]
#[verifier::external_body]
pub struct ExSchemaBuilder(SchemaBuilder);

/// A `tantivy::IndexWriter` for verse documents, held opaquely; what it was
/// given is named by `written_documents`.
#[verifier::external_body]
pub struct DocumentWriter {
    writer: IndexWriter<TantivyDocument>,
}

#[verifier::external_type_specification]
#[verifier::external_body]
pub struct ExTantivyError(TantivyError);

#[verifier::external_type_specification]
#[verifier::external_body]
pub struct ExSearcher(Searcher);

#[verifier::external_type_specification]
pub struct ExDocAddress(DocAddress);

#[verifier::external_type_specification]
#[verifier::external_body]
pub struct ExTantivyDocument(TantivyDocument);

/// The most results one search returns.
pub const MAX_SEARCH_RESULTS: usize = 100;

/// The memory the index writer may use while the index is built (50 MB).
pub const SEARCH_INDEX_MEMORY_BUDGET: usize = 50_000_000;

/// How a text field of the index is stored and searched.
pub enum TextKind {
    /// Stored, searched as one untokenized term (`STRING | STORED`).
    StoredString,
    /// Stored, searched as tokenized English text (`TEXT | STORED`).
    StoredText,
}

/// How a number field of the index is stored.
pub enum NumberKind {
    /// Stored, with a fast column (`FAST | STORED`).
    StoredFast,
    /// Stored only (`STORED`).
    Stored,
}

/// When a reader sees new commits.
pub enum ReloadMode {
    Manual,
    OnCommitWithDelay,
}

/// The search index of a Bible, with the handles of its fields and the
/// documents it holds. Each document also stores its position among them
/// (`id`), by which a found document is looked up.
pub struct BibleIndex {
    index: Index,
    reader: IndexReader,
    book_key: Field,
    book_name: Field,
    chapter: Field,
    verse: Field,
    text: Field,
    id: Field,
    documents: Vec<IndexDocument>,
    committed: Ghost<Seq<(IndexDocumentView, u64)>>,
}

impl BibleIndex {
    /// The verse documents the index was built from, in order, as the
    /// library keeps them to turn found positions into results.
    pub closed spec fn indexed_documents(&self) -> Seq<IndexDocumentView> {
        documents_view(self.documents@)
    }

    /// What the search index holds: the documents that were written to it and
    /// committed, in order, each with the position stored in it.
    pub closed spec fn stored_documents(&self) -> Seq<(IndexDocumentView, u64)> {
        self.committed@
    }

    /// The search index holds the library's documents, each stored with its
    /// position among them.
    #[verifier::type_invariant]
    spec fn positions_match(self) -> bool {
        self.committed@ == with_positions(documents_view(self.documents@))
    }
}

/// Documents, each with its position among them.
pub open spec fn with_positions(docs: Seq<IndexDocumentView>) -> Seq<(IndexDocumentView, u64)> {
    Seq::new(docs.len(), |k: int| (docs[k], k as u64))
}

/// One verse as it is indexed.
pub struct IndexDocument {
    pub book_key: String,
    pub book_name: String,
    pub chapter: u64,
    pub verse: u64,
    pub text: String,
}

/// An indexed verse as plain values: book key, book name, chapter, verse, text.
pub type IndexDocumentView = (Seq<char>, Seq<char>, u64, u64, Seq<char>);

impl View for IndexDocument {
    type V = IndexDocumentView;

    open spec fn view(&self) -> IndexDocumentView {
        (self.book_key@, self.book_name@, self.chapter, self.verse, self.text@)
    }
}

/// The documents of the first `n` verses of the chapter numbered `chapter` of a book.
pub open spec fn chapter_documents(
    key: Seq<char>,
    book: Book,
    chapter: int,
    verses: Seq<Verse>,
    n: int,
) -> Seq<IndexDocumentView>
    decreases n,
{
    if n <= 0 {
        Seq::empty()
    } else {
        chapter_documents(key, book, chapter, verses, n - 1).push(
            (key, book.name@, chapter as u64, n as u64, verses[n - 1].0@),
        )
    }
}

/// The documents of the first `n` chapters of a book, chapter by chapter.
pub open spec fn book_documents(key: Seq<char>, book: Book, n: int) -> Seq<IndexDocumentView>
    decreases n,
{
    if n <= 0 {
        Seq::empty()
    } else {
        let verses = book.chapters@[n - 1]@;
        book_documents(key, book, n - 1) + chapter_documents(key, book, n, verses, verses.len() as int)
    }
}

/// The documents of the books listed first `n` in the book order; a key
/// without a book adds nothing.
pub open spec fn bible_documents(bible: BibleData, n: int) -> Seq<IndexDocumentView>
    decreases n,
{
    if n <= 0 {
        Seq::empty()
    } else {
        let key = bible.book_order@[n - 1]@;
        bible_documents(bible, n - 1) + match book_for_key(bible.books@, key) {
            Some(book) => book_documents(key, book, book.chapters@.len() as int),
            None => Seq::empty(),
        }
    }
}

/// Every verse of a Bible, in the book order, numbered from one.
pub open spec fn all_bible_documents(bible: BibleData) -> Seq<IndexDocumentView> {
    bible_documents(bible, bible.book_order@.len() as int)
}

/// Documents as plain values.
pub open spec fn documents_view(docs: Seq<IndexDocument>) -> Seq<IndexDocumentView> {
    docs.map_values(|d: IndexDocument| d@)
}

/// Whether `d` is a verse of `book` stored under `key`: the key, the book's
/// name, an existing chapter and verse of it (counted from one) and that
/// verse's text.
pub open spec fn is_verse_of_book(key: Seq<char>, book: Book, d: IndexDocumentView) -> bool {
    &&& d.0 == key
    &&& d.1 == book.name@
    &&& 1 <= d.2 <= book.chapters@.len()
    &&& 1 <= d.3 <= book.chapters@[d.2 - 1]@.len()
    &&& d.4 == book.chapters@[d.2 - 1]@[d.3 - 1].0@
}

/// Whether `d` is a verse of `bible`: of a book that the book order lists.
pub open spec fn is_verse_of(bible: BibleData, d: IndexDocumentView) -> bool {
    &&& exists|i: int| 0 <= i < bible.book_order@.len() && #[trigger] bible.book_order@[i]@ == d.0
    &&& book_for_key(bible.books@, d.0) matches Some(book) && is_verse_of_book(d.0, book, d)
}

proof fn lemma_chapter_documents(key: Seq<char>, book: Book, chapter: int, n: int)
    requires
        1 <= chapter <= book.chapters@.len(),
        0 <= n <= book.chapters@[chapter - 1]@.len(),
    ensures
        chapter_documents(key, book, chapter, book.chapters@[chapter - 1]@, n).len() == n,
        forall|j: int|
            0 <= j < n ==> is_verse_of_book(
                key,
                book,
                #[trigger] chapter_documents(key, book, chapter, book.chapters@[chapter - 1]@, n)[j],
            ),
    decreases n,
{
    let verses = book.chapters@[chapter - 1];
    assert(book.chapters@.len() == book.chapters.len());
    assert(verses@.len() == verses.len());
    if n > 0 {
        lemma_chapter_documents(key, book, chapter, n - 1);
    }
}

proof fn lemma_book_documents(key: Seq<char>, book: Book, n: int)
    requires
        0 <= n <= book.chapters@.len(),
    ensures
        forall|j: int|
            0 <= j < book_documents(key, book, n).len() ==> is_verse_of_book(
                key,
                book,
                #[trigger] book_documents(key, book, n)[j],
            ),
    decreases n,
{
    if n > 0 {
        lemma_book_documents(key, book, n - 1);
        let verses = book.chapters@[n - 1]@;
        lemma_chapter_documents(key, book, n, verses.len() as int);
        let a = book_documents(key, book, n - 1);
        let b = chapter_documents(key, book, n, verses, verses.len() as int);
        assert forall|j: int| 0 <= j < (a + b).len() implies is_verse_of_book(key, book, #[trigger] (a + b)[j]) by {
            if j >= a.len() {
                assert((a + b)[j] == b[j - a.len()]);
            }
        }
    }
}

proof fn lemma_bible_documents(bible: BibleData, n: int)
    requires
        0 <= n <= bible.book_order@.len(),
    ensures
        forall|j: int|
            0 <= j < bible_documents(bible, n).len() ==> is_verse_of(
                bible,
                #[trigger] bible_documents(bible, n)[j],
            ),
    decreases n,
{
    if n > 0 {
        lemma_bible_documents(bible, n - 1);
        let key = bible.book_order@[n - 1]@;
        let a = bible_documents(bible, n - 1);
        match book_for_key(bible.books@, key) {
            Some(book) => {
                lemma_book_documents(key, book, book.chapters@.len() as int);
                let b = book_documents(key, book, book.chapters@.len() as int);
                assert forall|j: int| 0 <= j < (a + b).len() implies is_verse_of(bible, #[trigger] (a + b)[j]) by {
                    if j >= a.len() {
                        assert((a + b)[j] == b[j - a.len()]);
                        assert(is_verse_of_book(key, book, b[j - a.len()]));
                        assert(bible.book_order@[n - 1]@ == (a + b)[j].0);
                    }
                }
            },
            None => {
                assert(a + Seq::<IndexDocumentView>::empty() =~= a);
            },
        }
    }
}

/// Every indexed document of a Bible is one of its verses: a book that the
/// book order lists, an existing chapter and verse of it, and that verse's
/// text.
pub proof fn law_indexed_documents_are_verses(bible: BibleData, k: int)
    requires
        0 <= k < all_bible_documents(bible).len(),
    ensures
        is_verse_of(bible, all_bible_documents(bible)[k]),
{
    lemma_bible_documents(bible, bible.book_order@.len() as int);
}

/// The documents that index a Bible: one per verse of each book in the
/// book order, with the book's key and name, the chapter and verse numbers
/// (from one) and the verse text.
pub fn index_documents(bible: &BibleData) -> (r: Vec<IndexDocument>)
    ensures
        documents_view(r@) == all_bible_documents(*bible),
{
    let mut docs: Vec<IndexDocument> = Vec::new();
    let n_books = bible.book_order.len();
    let mut b: usize = 0;
    while b < n_books
        invariant
            b <= n_books,
            n_books == bible.book_order@.len(),
            documents_view(docs@) == bible_documents(*bible, b as int),
        decreases n_books - b,
    {
        let key = &bible.book_order[b];
        let ghost before = documents_view(docs@);
        match find_book(bible, key.as_str()) {
            Some(book) => {
                let n_chapters = book.chapters.len();
                let mut c: usize = 0;
                assert(before + book_documents(key@, *book, 0) =~= before);
                while c < n_chapters
                    invariant
                        c <= n_chapters,
                        n_chapters == book.chapters@.len(),
                        documents_view(docs@) == before + book_documents(key@, *book, c as int),
                    decreases n_chapters - c,
                {
                    let verses = &book.chapters[c];
                    let n_verses = verses.len();
                    let ghost before_chapter = documents_view(docs@);
                    let mut v: usize = 0;
                    assert(before_chapter + chapter_documents(key@, *book, c + 1, verses@, 0)
                        =~= before_chapter);
                    while v < n_verses
                        invariant
                            v <= n_verses,
                            n_verses == verses@.len(),
                            c < n_chapters,
                            documents_view(docs@) == before_chapter + chapter_documents(
                                key@,
                                *book,
                                c + 1,
                                verses@,
                                v as int,
                            ),
                        decreases n_verses - v,
                    {
                        let doc = IndexDocument {
                            book_key: key.clone(),
                            book_name: book.name.clone(),
                            chapter: (c + 1) as u64,
                            verse: (v + 1) as u64,
                            text: verses[v].0.clone(),
                        };
                        let ghost prev = documents_view(docs@);
                        docs.push(doc);
                        assert(documents_view(docs@) =~= prev.push(doc@));
                        v = v + 1;
                    }
                    c = c + 1;
                }
            },
            None => {
                assert(before + Seq::<IndexDocumentView>::empty() =~= before);
            },
        }
        b = b + 1;
    }
    docs
}

/// The names of the fields that a schema builder has been given.
pub uninterp spec fn builder_field_names(b: SchemaBuilder) -> Set<Seq<char>>;

/// Whether `tantivy` accepts `name` as a field name (`is_valid_field_name`):
/// not empty and not starting with `-`.
pub open spec fn valid_field_name(name: Seq<char>) -> bool {
    name.len() > 0 && name[0] != '-'
}

/// Calls `Schema::builder`; the new builder has no field.
#[verifier::external_body]
fn new_schema_builder() -> (r: SchemaBuilder)
    ensures
        builder_field_names(r) == Set::<Seq<char>>::empty(),
{
    Schema::builder()
}

/// Calls `SchemaBuilder::add_text_field` with the options that `kind` stands
/// for. `tantivy` panics on an invalid name or one the builder has already.
#[verifier::external_body]
fn add_text_field(builder: &mut SchemaBuilder, name: &str, kind: TextKind) -> (r: Field)
    requires
        valid_field_name(name@),
        !builder_field_names(*old(builder)).contains(name@),
    ensures
        builder_field_names(*final(builder)) == builder_field_names(*old(builder)).insert(name@),
{
    let options = match kind {
        TextKind::StoredString => tantivy::schema::STRING | tantivy::schema::STORED,
        TextKind::StoredText => tantivy::schema::TEXT | tantivy::schema::STORED,
    };
    builder.add_text_field(name, options)
}

/// Calls `SchemaBuilder::add_u64_field` with the options that `kind` stands
/// for. `tantivy` panics on an invalid name or one the builder has already.
#[verifier::external_body]
fn add_u64_field(builder: &mut SchemaBuilder, name: &str, kind: NumberKind) -> (r: Field)
    requires
        valid_field_name(name@),
        !builder_field_names(*old(builder)).contains(name@),
    ensures
        builder_field_names(*final(builder)) == builder_field_names(*old(builder)).insert(name@),
{
    let options = match kind {
        NumberKind::StoredFast => tantivy::schema::NumericOptions::from(
            tantivy::schema::FAST | tantivy::schema::STORED,
        ),
        NumberKind::Stored => tantivy::schema::NumericOptions::from(tantivy::schema::STORED),
    };
    builder.add_u64_field(name, options)
}

/// Calls `SchemaBuilder::build`.
#[verifier::external_body]
fn finish_schema(builder: SchemaBuilder) -> Schema {
    builder.build()
}

/// Calls `Index::create_in_ram`.
#[verifier::external_body]
fn create_index_in_ram(schema: Schema) -> Index {
    Index::create_in_ram(schema)
}

/// The documents that a writer has been given, in order, each with the
/// position stored in it.
pub uninterp spec fn written_documents(w: DocumentWriter) -> Seq<(IndexDocumentView, u64)>;

/// The documents that a writer has committed to its index, in order, each
/// with the position stored in it.
pub uninterp spec fn committed_documents(w: DocumentWriter) -> Seq<(IndexDocumentView, u64)>;

/// Calls `Index::writer` with the given memory budget; a new writer has been
/// given no document.
#[verifier::external_body]
fn open_writer(index: &Index, memory_budget: usize) -> (r: Result<DocumentWriter, TantivyError>)
    ensures
        r matches Ok(w) ==> written_documents(w) == Seq::<(IndexDocumentView, u64)>::empty()
            && committed_documents(w) == Seq::<(IndexDocumentView, u64)>::empty(),
{
    index.writer(memory_budget).map(|writer| DocumentWriter { writer })
}

/// Calls `IndexWriter::add_document` with a document that holds the fields of
/// `doc`, each under its own handle of `fields`, and `id` under the id handle;
/// when it succeeds, the writer has been given `doc` after the others.
#[verifier::external_body]
fn add_document(
    w: &mut DocumentWriter,
    fields: &BibleIndexFields,
    doc: &IndexDocument,
    id: u64,
) -> (r: Result<(), TantivyError>)
    ensures
        r is Ok ==> written_documents(*final(w)) == written_documents(*old(w)).push((doc@, id)),
        committed_documents(*final(w)) == committed_documents(*old(w)),
{
    let mut d = TantivyDocument::default();
    d.add_text(fields.book_key, doc.book_key.as_str());
    d.add_text(fields.book_name, doc.book_name.as_str());
    d.add_u64(fields.chapter, doc.chapter);
    d.add_u64(fields.verse, doc.verse);
    d.add_text(fields.text, doc.text.as_str());
    d.add_u64(fields.id, id);
    w.writer.add_document(d).map(|_| ())
}

/// Calls `IndexWriter::commit`, which makes the documents given so far part
/// of the index.
#[verifier::external_body]
fn commit(w: &mut DocumentWriter) -> (r: Result<(), TantivyError>)
    ensures
        written_documents(*final(w)) == written_documents(*old(w)),
        r is Ok ==> committed_documents(*final(w)) == written_documents(*old(w)),
{
    w.writer.commit().map(|_| ())
}

/// Calls `Index::reader_builder`, `IndexReaderBuilder::reload_policy` and `try_into`.
#[verifier::external_body]
fn open_reader(index: &Index, mode: ReloadMode) -> Result<IndexReader, TantivyError> {
    let policy = match mode {
        ReloadMode::Manual => tantivy::ReloadPolicy::Manual,
        ReloadMode::OnCommitWithDelay => tantivy::ReloadPolicy::OnCommitWithDelay,
    };
    index.reader_builder().reload_policy(policy).try_into()
}

/// The handles of the fields of the index.
pub struct BibleIndexFields {
    pub book_key: Field,
    pub book_name: Field,
    pub chapter: Field,
    pub verse: Field,
    pub text: Field,
    pub id: Field,
}

impl BibleIndex {
    /// Builds an in-memory index with one document per verse of `bible`
    /// (`index_documents`), each storing its position as `id`, then opens a
    /// reader on it. The first error that `tantivy` reports is returned.
    pub fn build(bible: &BibleData) -> (r: Result<BibleIndex, TantivyError>)
        ensures
            r matches Ok(i) ==> i.indexed_documents() == all_bible_documents(*bible),
            r matches Ok(i) ==> i.stored_documents() == with_positions(all_bible_documents(*bible)),
    {
        let mut builder = new_schema_builder();
        proof {
            reveal_strlit("book_key");
            reveal_strlit("book_name");
            reveal_strlit("chapter");
            reveal_strlit("verse");
            reveal_strlit("text");
            reveal_strlit("id");
        }
        let book_key = add_text_field(&mut builder, "book_key", TextKind::StoredString);
        let book_name = add_text_field(&mut builder, "book_name", TextKind::StoredString);
        let chapter = add_u64_field(&mut builder, "chapter", NumberKind::StoredFast);
        let verse = add_u64_field(&mut builder, "verse", NumberKind::StoredFast);
        let text = add_text_field(&mut builder, "text", TextKind::StoredText);
        let id = add_u64_field(&mut builder, "id", NumberKind::Stored);
        let fields = BibleIndexFields { book_key, book_name, chapter, verse, text, id };
        let schema = finish_schema(builder);
        let index = create_index_in_ram(schema);
        let mut writer = open_writer(&index, SEARCH_INDEX_MEMORY_BUDGET)?;
        let docs = index_documents(bible);
        let n = docs.len();
        let mut i: usize = 0;
        assert(documents_view(docs@.take(0)) =~= Seq::<IndexDocumentView>::empty());
        assert(with_positions(Seq::<IndexDocumentView>::empty()) =~= Seq::<(IndexDocumentView, u64)>::empty());
        while i < n
            invariant
                i <= n,
                n == docs@.len(),
                written_documents(writer) == with_positions(documents_view(docs@.take(i as int))),
                n <= usize::MAX,
            decreases n - i,
        {
            add_document(&mut writer, &fields, &docs[i], i as u64)?;
            assert(documents_view(docs@.take(i + 1)) =~= documents_view(docs@.take(i as int)).push(
                docs@[i as int]@,
            ));
            assert(with_positions(documents_view(docs@.take(i + 1))) =~= with_positions(
                documents_view(docs@.take(i as int)),
            ).push((docs@[i as int]@, i as u64)));
            i = i + 1;
        }
        assert(docs@.take(n as int) =~= docs@);
        commit(&mut writer)?;
        let reader = open_reader(&index, ReloadMode::OnCommitWithDelay)?;
        Ok(BibleIndex {
            index,
            reader,
            book_key: fields.book_key,
            book_name: fields.book_name,
            chapter: fields.chapter,
            verse: fields.verse,
            text: fields.text,
            id: fields.id,
            documents: docs,
            committed: Ghost(committed_documents(writer)),
        })
    }
}

/// A verse found by a search.
#[derive(Debug, Clone)]
pub struct SearchResult {
    pub book_key: String,
    pub book_name: String,
    pub chapter: usize,
    pub verse: usize,
    pub snippet: String,
}

/// A search result as plain values: book key, book name, chapter, verse, text.
pub type SearchResultView = (Seq<char>, Seq<char>, usize, usize, Seq<char>);

impl View for SearchResult {
    type V = SearchResultView;

    open spec fn view(&self) -> SearchResultView {
        (self.book_key@, self.book_name@, self.chapter, self.verse, self.snippet@)
    }
}

/// The search result for an indexed document: its book key, book name,
/// chapter and verse numbers and text.
pub open spec fn result_of_document(d: IndexDocumentView) -> SearchResultView {
    (d.0, d.1, d.2 as usize, d.3 as usize, d.4)
}

/// Whether `r` are results for documents of `docs`, each document at most
/// once: the results are those of distinct positions among `docs`.
pub open spec fn found_in(docs: Seq<IndexDocumentView>, r: Seq<SearchResult>) -> bool {
    exists|ids: Seq<int>|
        #![trigger ids.len()]
        ids.len() == r.len() && ids.no_duplicates() && forall|k: int|
            0 <= k < r.len() ==> 0 <= #[trigger] ids[k] < docs.len() && r[k]@ == result_of_document(
                docs[ids[k]],
            )
}

/// The result for an indexed document.
pub fn result_for_document(d: &IndexDocument) -> (r: SearchResult)
    ensures
        r@ == result_of_document(d@),
{
    SearchResult {
        book_key: d.book_key.clone(),
        book_name: d.book_name.clone(),
        chapter: d.chapter as usize,
        verse: d.verse as usize,
        snippet: d.text.clone(),
    }
}

/// Calls `IndexReader::searcher`.
#[verifier::external_body]
fn searcher_of(reader: &IndexReader) -> Searcher {
    reader.searcher()
}

/// The number of segments that a searcher reads.
pub uninterp spec fn segment_count(s: Searcher) -> nat;

/// Whether `QueryParser::parse_query` accepts `query` for the schema of a
/// Bible index, searching its text field.
pub uninterp spec fn verse_query_parses(query: Seq<char>) -> bool;

/// Parses `query` with a `QueryParser` for the index of `bible_index` that
/// searches its text field (`QueryParser::for_index`, `parse_query`), then
/// runs it with the `TopDocs::with_limit(limit).order_by_score()` collector
/// (`Searcher::search`), keeping the found documents' addresses in order.
/// `None` when the query does not parse or the search fails. At most `limit`
/// addresses come back, each in a segment of `searcher`; which documents are
/// found, and in what order, is not stated.
#[verifier::external_body]
fn top_documents(
    searcher: &Searcher,
    bible_index: &BibleIndex,
    query: &str,
    limit: usize,
) -> (r: Option<Vec<DocAddress>>)
    requires
        limit >= 1,
    ensures
        !verse_query_parses(query@) ==> r is None,
        r matches Some(v) ==> v@.len() <= limit && forall|k: int|
            0 <= k < v@.len() ==> (#[trigger] v@[k]).segment_ord < segment_count(*searcher),
{
    let parser = tantivy::query::QueryParser::for_index(&bible_index.index, vec![bible_index.text]);
    let q = parser.parse_query(query).ok()?;
    let collector = tantivy::collector::TopDocs::with_limit(limit).order_by_score();
    let found = searcher.search(&q, &collector).ok()?;
    Some(found.into_iter().map(|(_score, address)| address).collect())
}

/// Calls `Searcher::doc`; `None` when the document cannot be read. The
/// address must be in a segment of the searcher (else `tantivy` panics).
#[verifier::external_body]
fn fetch_document(searcher: &Searcher, address: DocAddress) -> Option<TantivyDocument>
    requires
        address.segment_ord < segment_count(*searcher),
{
    searcher.doc(address).ok()
}

/// Calls `TantivyDocument::get_first` and `Value::as_u64`.
#[verifier::external_body]
fn first_u64(doc: &TantivyDocument, field: Field) -> Option<u64> {
    doc.get_first(field).and_then(|v| v.as_u64())
}

/// The position stored in the document at `address`; `None` when the
/// document cannot be read or has none.
fn stored_id(searcher: &Searcher, address: DocAddress, id: Field) -> Option<u64>
    requires
        address.segment_ord < segment_count(*searcher),
{
    match fetch_document(searcher, address) {
        Some(doc) => first_u64(&doc, id),
        None => None,
    }
}

/// Search results as plain values.
pub open spec fn results_view(r: Seq<SearchResult>) -> Seq<SearchResultView> {
    r.map_values(|x: SearchResult| x@)
}

/// The results for the positions `ids` read back from found documents, in
/// order: the first occurrence of each position below the number of
/// documents gives the result of the document there; a missing position, one
/// past the documents or one already seen gives nothing.
pub open spec fn results_for_ids_spec(docs: Seq<IndexDocumentView>, ids: Seq<Option<u64>>) -> Seq<
    SearchResultView,
>
    decreases ids.len(),
{
    if ids.len() == 0 {
        Seq::empty()
    } else {
        let rest = results_for_ids_spec(docs, ids.drop_last());
        match ids.last() {
            Some(id) => if id < docs.len() && !ids.drop_last().contains(Some(id)) {
                rest.push(result_of_document(docs[id as int]))
            } else {
                rest
            },
            None => rest,
        }
    }
}

proof fn lemma_push_contains<T>(s: Seq<T>, a: T, x: T)
    ensures
        s.push(a).contains(x) <==> (s.contains(x) || a == x),
{
    if s.contains(x) {
        let j = choose|j: int| 0 <= j < s.len() && s[j] == x;
        assert(s.push(a)[j] == x);
    }
    if a == x {
        assert(s.push(a)[s.len() as int] == x);
    }
    if s.push(a).contains(x) {
        let j = choose|j: int| 0 <= j < s.len() + 1 && s.push(a)[j] == x;
        if j < s.len() {
            assert(s[j] == x);
        }
    }
}

fn contains_id(seen: &Vec<u64>, id: u64) -> (r: bool)
    ensures
        r == seen@.contains(id),
{
    let n = seen.len();
    let mut i: usize = 0;
    while i < n
        invariant
            i <= n,
            n == seen@.len(),
            forall|j: int| 0 <= j < i ==> seen@[j] != id,
        decreases n - i,
    {
        if seen[i] == id {
            assert(seen@[i as int] == id);
            return true;
        }
        i = i + 1;
    }
    false
}

/// The positions that `results_for_ids_spec` keeps, in order.
pub open spec fn kept_ids(n: nat, ids: Seq<Option<u64>>) -> Seq<u64>
    decreases ids.len(),
{
    if ids.len() == 0 {
        Seq::empty()
    } else {
        let rest = kept_ids(n, ids.drop_last());
        match ids.last() {
            Some(id) => if id < n && !ids.drop_last().contains(Some(id)) {
                rest.push(id)
            } else {
                rest
            },
            None => rest,
        }
    }
}

proof fn lemma_kept_ids(n: nat, ids: Seq<Option<u64>>, x: u64)
    ensures
        kept_ids(n, ids).contains(x) <==> (x < n && ids.contains(Some(x))),
    decreases ids.len(),
{
    if ids.len() > 0 {
        let pre = ids.drop_last();
        lemma_kept_ids(n, pre, x);
        assert(ids =~= pre.push(ids.last()));
        lemma_push_contains(pre, ids.last(), Some(x));
        if let Some(id) = ids.last() {
            lemma_push_contains(kept_ids(n, pre), id, x);
        }
    } else {
        assert(!ids.contains(Some(x)));
    }
}

/// The result for a position stored in the search index is the result of
/// the verse stored with that position.
pub proof fn law_position_gives_stored_verse(
    docs: Seq<IndexDocumentView>,
    stored: Seq<(IndexDocumentView, u64)>,
    k: int,
)
    requires
        stored == with_positions(docs),
        docs.len() <= u64::MAX,
        0 <= k < stored.len(),
    ensures
        results_for_ids_spec(docs, seq![Some(stored[k].1)]) == seq![result_of_document(stored[k].0)],
{
    assert(stored[k] == (docs[k], k as u64));
    let ids = seq![Some(stored[k].1)];
    assert(ids.drop_last() =~= Seq::<Option<u64>>::empty());
    assert(!ids.drop_last().contains(Some(stored[k].1)));
    assert(results_for_ids_spec(docs, ids.drop_last()) =~= Seq::<SearchResultView>::empty());
    assert(seq![result_of_document(stored[k].0)] =~= Seq::<SearchResultView>::empty().push(
        result_of_document(docs[stored[k].1 as int]),
    ));
}

/// Turns the positions read back from the documents a search found, in the
/// order found, into search results (`results_for_ids_spec`): each position
/// of an indexed document gives that document's result, the first time only.
pub fn results_for_ids(bible_index: &BibleIndex, ids: &Vec<Option<u64>>) -> (r: Vec<SearchResult>)
    ensures
        bible_index.stored_documents() == with_positions(bible_index.indexed_documents()),
        results_view(r@) == results_for_ids_spec(bible_index.indexed_documents(), ids@),
        r@.len() <= ids@.len(),
        found_in(bible_index.indexed_documents(), r@),
{
    proof {
        use_type_invariant(bible_index);
    }
    let ghost docs = bible_index.indexed_documents();
    let mut results: Vec<SearchResult> = Vec::new();
    let mut seen: Vec<u64> = Vec::new();
    let n = ids.len();
    let total = bible_index.documents.len();
    let mut i: usize = 0;
    assert(ids@.take(0) =~= Seq::<Option<u64>>::empty());
    while i < n
        invariant
            i <= n,
            n == ids@.len(),
            total == bible_index.documents@.len(),
            docs == bible_index.indexed_documents(),
            docs == documents_view(bible_index.documents@),
            docs.len() == total,
            results_view(results@) == results_for_ids_spec(docs, ids@.take(i as int)),
            seen@ == kept_ids(docs.len(), ids@.take(i as int)),
            results@.len() == seen@.len(),
            results@.len() <= i,
            seen@.no_duplicates(),
            forall|k: int|
                0 <= k < results@.len() ==> #[trigger] seen@[k] < docs.len() && results@[k]@
                    == result_of_document(docs[seen@[k] as int]),
        decreases n - i,
    {
        let ghost pre = ids@.take(i as int);
        assert(ids@.take(i + 1).drop_last() =~= pre);
        assert(ids@.take(i + 1).last() == ids@[i as int]);
        let ghost prev = results@;
        match ids[i] {
            Some(id) => {
                let fresh = if id < total as u64 {
                    !contains_id(&seen, id)
                } else {
                    false
                };
                proof {
                    lemma_kept_ids(docs.len(), pre, id);
                }
                if fresh {
                    let p = id as usize;
                    let result = result_for_document(&bible_index.documents[p]);
                    assert(docs[p as int] == bible_index.documents@[p as int]@);
                    results.push(result);
                    seen.push(id);
                    assert(results_view(results@) =~= results_view(prev).push(result@));
                }
            },
            None => {},
        }
        i = i + 1;
    }
    assert(ids@.take(n as int) =~= ids@);
    proof {
        let pos = seen@.map_values(|x: u64| x as int);
        assert(pos.len() == results@.len());
        assert forall|a: int, b: int| 0 <= a < b < pos.len() implies pos[a] != pos[b] by {
            assert(seen@[a] != seen@[b]);
        }
        assert(forall|k: int| 0 <= k < results@.len() ==> 0 <= #[trigger] pos[k] < docs.len()
            && results@[k]@ == result_of_document(docs[pos[k]]));
    }
    results
}

/// Searches the verse texts for `query` (`tantivy` query syntax: words,
/// quoted phrases, `+`/`-`, `AND`/`OR`), best matches first. A query that
/// does not parse, or a failed search, gives no results. The positions that
/// the found documents store, in the order found (none for a document that
/// cannot be read), become the results by `results_for_ids`.
pub fn search_results(bible_index: &BibleIndex, query_str: &str) -> (r: Vec<SearchResult>)
    ensures
        bible_index.stored_documents() == with_positions(bible_index.indexed_documents()),
        r@.len() <= MAX_SEARCH_RESULTS,
        !verse_query_parses(query_str@) ==> r@.len() == 0,
        found_in(bible_index.indexed_documents(), r@),
        exists|ids: Seq<Option<u64>>|
            ids.len() <= MAX_SEARCH_RESULTS && results_view(r@) == #[trigger] results_for_ids_spec(
                bible_index.indexed_documents(),
                ids,
            ),
{
    let ghost docs = bible_index.indexed_documents();
    let searcher = searcher_of(&bible_index.reader);
    let addresses = match top_documents(&searcher, bible_index, query_str, MAX_SEARCH_RESULTS) {
        Some(f) => f,
        None => {
            let none: Vec<Option<u64>> = Vec::new();
            return results_for_ids(bible_index, &none);
        },
    };
    let mut ids: Vec<Option<u64>> = Vec::new();
    let n = addresses.len();
    let mut i: usize = 0;
    while i < n
        invariant
            i <= n,
            n == addresses@.len(),
            n <= MAX_SEARCH_RESULTS,
            forall|k: int|
                0 <= k < n ==> (#[trigger] addresses@[k]).segment_ord < segment_count(searcher),
            ids@.len() == i,
        decreases n - i,
    {
        ids.push(stored_id(&searcher, addresses[i], bible_index.id));
        i = i + 1;
    }
    results_for_ids(bible_index, &ids)
}

} // verus!
