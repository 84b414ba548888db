//! Decisions on searching: the search dialog, its query, and going to a result.

use vstd::prelude::*;
use crate::bibles::{book_for_key, find_book};
use crate::search_index::{
    found_in, results_for_ids, results_for_ids_spec, results_view, search_results, verse_query_parses,
    SearchResult, MAX_SEARCH_RESULTS,
};
use crate::state::{Action, ActionView, AppState, Modal, ModalView, StateView};
use crate::text::{str_trim, trim_white_space};

verus! {

/// What happens in the search dialog.
#[derive(Debug)]
pub enum SearchMessage {
    Toggle,
    QueryChanged(String),
    ResultClicked { book_key: String, chapter: usize, verse: usize },
}

/// How a message about searching changes the state and what it asks for.
pub open spec fn search_transition(
    old: StateView,
    message: SearchMessage,
    new: StateView,
    r: ActionView,
) -> bool {
    match message {
        SearchMessage::Toggle => match old.modal {
            Some(ModalView::Search) => {
                &&& r == ActionView::Nothing
                &&& new == (StateView { modal: None, ..old })
            },
            _ => {
                &&& r == ActionView::FocusSearchInput
                &&& new == (StateView {
                    modal: Some(ModalView::Search),
                    search_query: Seq::empty(),
                    verse_popup: None,
                    ..old
                })
            },
        },
        SearchMessage::QueryChanged(q) => {
            &&& r == ActionView::Nothing
            &&& new == (StateView { search_query: q@, ..old })
        },
        SearchMessage::ResultClicked { book_key, chapter, verse } => {
            &&& r == ActionView::Nothing
            &&& if old.bible is Some && book_for_key(old.bible->0.books@, book_key@) is Some {
                new == (StateView {
                    book_key: Some(book_key@),
                    chapter: Some(chapter),
                    selected_verses: seq![verse],
                    selection_anchor: Some(verse),
                    modal: None,
                    ..old
                })
            } else {
                new == (StateView { modal: None, ..old })
            }
        },
    }
}

impl AppState {
    /// Decides on a message about searching.
    pub fn update_search(&mut self, message: SearchMessage) -> (r: Action)
        ensures
            search_transition(old(self)@, message, final(self)@, r@),
    {
        match message {
            SearchMessage::Toggle => {
                let open = match &self.modal {
                    Some(Modal::Search) => true,
                    _ => false,
                };
                if open {
                    self.modal = None;
                    Action::Nothing
                } else {
                    self.modal = Some(Modal::Search);
                    self.search_query = String::new();
                    self.verse_popup = None;
                    Action::FocusSearchInput
                }
            },
            SearchMessage::QueryChanged(q) => {
                self.search_query = q;
                Action::Nothing
            },
            SearchMessage::ResultClicked { book_key, chapter, verse } => {
                let found = match &self.bible {
                    Some(bible) => find_book(bible, book_key.as_str()).is_some(),
                    None => false,
                };
                if found {
                    self.book_key = Some(book_key);
                    self.chapter = Some(chapter);
                    let mut sel: Vec<usize> = Vec::new();
                    sel.push(verse);
                    self.selected_verses = sel;
                    self.selection_anchor = Some(verse);
                    assert(self.selected_verses@ =~= seq![verse]);
                }
                self.modal = None;
                Action::Nothing
            },
        }
    }

    /// The results of the current query: none without a search index or when
    /// the query is blank, else those of `search_results` for the trimmed query.
    pub fn search_results(&self) -> (r: Vec<SearchResult>)
        ensures
            (self.bible_index is None || trim_white_space(self.search_query@).len() == 0) ==> r@.len()
                == 0,
            r@.len() <= MAX_SEARCH_RESULTS,
            !verse_query_parses(trim_white_space(self.search_query@)) ==> r@.len() == 0,
            self.bible_index matches Some(i) ==> found_in(i.indexed_documents(), r@),
            self.bible_index matches Some(i) ==> exists|ids: Seq<Option<u64>>|
                ids.len() <= MAX_SEARCH_RESULTS && results_view(r@) == #[trigger] results_for_ids_spec(
                    i.indexed_documents(),
                    ids,
                ),
    {
        let query = str_trim(self.search_query.as_str());
        match &self.bible_index {
            Some(index) => {
                if query.is_empty() {
                    let none: Vec<Option<u64>> = Vec::new();
                    results_for_ids(index, &none)
                } else {
                    search_results(index, query)
                }
            },
            None => Vec::new(),
        }
    }
}

} // verus!
