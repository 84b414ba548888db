//! Decisions on Bibles: choosing an installed one, a book and a
//! chapter; fetching the catalog, downloading and deleting Bibles.

use vstd::prelude::*;
use tantivy::TantivyError;
use crate::bibles::BibleData;
use crate::library::catalog::BibleCatalog;
use crate::library::library::InstalledBible;
use crate::search_index::{all_bible_documents, BibleIndex};
use crate::state::{
    Action, ActionView, AppState, ConfigView, StateView,
};
use vstd::string::StringExecFns;

verus! {

/// What happens to Bibles.
#[derive(Debug)]
pub enum BibleMessage {
    SelectInstalled(String),
    FetchCatalog,
    CatalogLoaded(Result<BibleCatalog, String>),
    /// A Bible to download: its name and its address.
    Download(String, String),
    DownloadFinished(String, Result<(), String>),
    Delete(String),
    SelectBookIndex(usize),
    SelectChapterIndex(usize),
}

/// Why a Bible could not be opened.
#[derive(Debug)]
pub enum BibleLoadError {
    /// It could not be read from disk.
    NotReadable,
    /// Its search index could not be built.
    Index(TantivyError),
}

/// The message recorded when downloading `name` failed with `err`.
pub open spec fn download_failed_message(name: Seq<char>, err: Seq<char>) -> Seq<char> {
    "failed to library '"@ + name + "': "@ + err
}

/// The message recorded when deleting `name` failed with `err`.
pub open spec fn delete_failed_message(name: Seq<char>, err: Seq<char>) -> Seq<char> {
    "failed to delete '"@ + name + "': "@ + err
}

/// The state with no chapter open and nothing selected or open over it.
pub open spec fn closed_chapter(s: StateView) -> StateView {
    StateView {
        book_key: None,
        chapter: None,
        selected_verses: Seq::empty(),
        selection_anchor: None,
        modal: None,
        ..s
    }
}

/// How a message about Bibles changes the state and what it asks for.
pub open spec fn bible_transition(
    old: StateView,
    message: BibleMessage,
    new: StateView,
    r: ActionView,
) -> bool {
    match message {
        BibleMessage::SelectInstalled(name) => {
            &&& r == ActionView::LoadBible(name@)
            &&& new == old
        },
        BibleMessage::SelectBookIndex(idx) => {
            &&& r == ActionView::Nothing
            &&& if old.bible is Some && idx < old.bible->0.book_order@.len() {
                new == (StateView {
                    book_key: Some(old.bible->0.book_order@[idx as int]@),
                    chapter: None,
                    selected_verses: Seq::empty(),
                    selection_anchor: None,
                    modal: None,
                    ..old
                })
            } else {
                new == old
            }
        },
        BibleMessage::SelectChapterIndex(idx) => {
            &&& r == ActionView::Nothing
            &&& new == (StateView {
                chapter: Some((idx + 1) as usize),
                selected_verses: Seq::empty(),
                selection_anchor: None,
                modal: None,
                ..old
            })
        },
        BibleMessage::FetchCatalog => {
            &&& r == ActionView::FetchCatalog
            &&& new == (StateView { catalog_loading: true, download_error: None, ..old })
        },
        BibleMessage::CatalogLoaded(res) => {
            &&& r == ActionView::Nothing
            &&& new == match res {
                Ok(c) => StateView { catalog_loading: false, remote_catalog: Some(c), ..old },
                Err(e) => StateView { catalog_loading: false, download_error: Some(e@), ..old },
            }
        },
        BibleMessage::Download(name, url) => {
            &&& r == ActionView::DownloadBible { name: name@, url: url@ }
            &&& new == (StateView { downloading: Some(name@), download_error: None, ..old })
        },
        BibleMessage::DownloadFinished(name, res) => match res {
            Ok(()) => {
                &&& r == ActionView::RefreshInstalled
                &&& new == (StateView { downloading: None, ..old })
            },
            Err(e) => {
                &&& r == ActionView::Nothing
                &&& new == (StateView {
                    downloading: None,
                    download_error: Some(download_failed_message(name@, e@)),
                    ..old
                })
            },
        },
        BibleMessage::Delete(name) => {
            &&& r == ActionView::DeleteBible(name@)
            &&& new == old
        },
    }
}

fn failure_message(prefix: &str, name: &str, err: &str) -> (r: String)
    ensures
        r@ == prefix@ + name@ + "': "@ + err@,
{
    let mut s = String::new();
    s.append(prefix);
    s.append(name);
    s.append("': ");
    s.append(err);
    assert(s@ =~= prefix@ + name@ + "': "@ + err@);
    s
}

impl AppState {
    /// Decides on a message about Bibles.
    pub fn update_bible(&mut self, message: BibleMessage) -> (r: Action)
        requires
            message matches BibleMessage::SelectChapterIndex(idx) ==> idx < usize::MAX,
        ensures
            bible_transition(old(self)@, message, final(self)@, r@),
    {
        match message {
            BibleMessage::SelectInstalled(name) => Action::LoadBible(name),
            BibleMessage::SelectBookIndex(idx) => {
                let key = match &self.bible {
                    Some(bible) => if idx < bible.book_order.len() {
                        Some(bible.book_order[idx].clone())
                    } else {
                        None
                    },
                    None => None,
                };
                match key {
                    Some(k) => {
                        self.book_key = Some(k);
                        self.chapter = None;
                        self.clear_selection();
                        self.modal = None;
                    },
                    None => {},
                }
                Action::Nothing
            },
            BibleMessage::SelectChapterIndex(idx) => {
                self.chapter = Some(idx + 1);
                self.clear_selection();
                self.modal = None;
                Action::Nothing
            },
            BibleMessage::FetchCatalog => {
                self.catalog_loading = true;
                self.download_error = None;
                Action::FetchCatalog
            },
            BibleMessage::CatalogLoaded(res) => {
                self.catalog_loading = false;
                match res {
                    Ok(catalog) => self.remote_catalog = Some(catalog),
                    Err(e) => self.download_error = Some(e),
                }
                Action::Nothing
            },
            BibleMessage::Download(name, url) => {
                self.downloading = Some(name.clone());
                self.download_error = None;
                Action::DownloadBible { name, url }
            },
            BibleMessage::DownloadFinished(name, res) => {
                self.downloading = None;
                match res {
                    Ok(()) => Action::RefreshInstalled,
                    Err(e) => {
                        self.download_error = Some(
                            failure_message("failed to library '", name.as_str(), e.as_str()),
                        );
                        Action::Nothing
                    },
                }
            },
            BibleMessage::Delete(name) => Action::DeleteBible(name),
        }
    }

    /// Opens the Bible `name` read from disk (`None` when it could not be
    /// read): its search index is built, it becomes the selected Bible
    /// and no chapter is open. The state is unchanged when it cannot be opened.
    pub fn bible_loaded(&mut self, name: String, data: Option<BibleData>) -> (r: Result<(), BibleLoadError>)
        ensures
            data is None <==> r matches Err(BibleLoadError::NotReadable),
            r matches Err(BibleLoadError::Index(_)) ==> data is Some,
            r is Err ==> final(self)@ == old(self)@,
            r is Ok ==> (final(self).bible_index matches Some(i) && data matches Some(d)
                && i.indexed_documents() == all_bible_documents(d)),
            r is Ok ==> data is Some && final(self)@ == (StateView {
                bible: data,
                bible_index: final(self).bible_index,
                config: ConfigView { selected_bible: Some(name@), ..old(self)@.config },
                ..closed_chapter(old(self)@)
            }),
    {
        let data = match data {
            Some(d) => d,
            None => return Err(BibleLoadError::NotReadable),
        };
        let index = match BibleIndex::build(&data) {
            Ok(i) => i,
            Err(e) => return Err(BibleLoadError::Index(e)),
        };
        self.bible_index = Some(index);
        self.bible = Some(data);
        self.config.selected_bible = Some(name);
        self.book_key = None;
        self.chapter = None;
        self.clear_selection();
        self.modal = None;
        Ok(())
    }

    /// Records the installed Bibles.
    pub fn set_installed(&mut self, installed: Vec<InstalledBible>)
        ensures
            final(self)@ == (StateView { installed_bibles: installed@, ..old(self)@ }),
    {
        self.installed_bibles = installed;
    }

    /// Records the outcome of deleting the Bible `name` (`delete_error`
    /// when it failed) and the Bibles installed afterwards; when `name`
    /// was the selected Bible, it is closed.
    pub fn bible_deleted(
        &mut self,
        name: String,
        delete_error: Option<String>,
        installed: Vec<InstalledBible>,
    )
        ensures
            ({
                let s1 = StateView {
                    installed_bibles: installed@,
                    download_error: match delete_error {
                        Some(e) => Some(delete_failed_message(name@, e@)),
                        None => old(self)@.download_error,
                    },
                    ..old(self)@
                };
                final(self)@ == if old(self)@.config.selected_bible == Some(name@) {
                    StateView {
                        bible: None,
                        bible_index: None,
                        config: ConfigView { selected_bible: None, ..s1.config },
                        ..closed_chapter(s1)
                    }
                } else {
                    s1
                }
            }),
    {
        match delete_error {
            Some(e) => {
                self.download_error = Some(
                    failure_message("failed to delete '", name.as_str(), e.as_str()),
                );
            },
            None => {},
        }
        self.installed_bibles = installed;
        let selected = match &self.config.selected_bible {
            Some(s) => *s == name,
            None => false,
        };
        if selected {
            self.bible = None;
            self.bible_index = None;
            self.book_key = None;
            self.chapter = None;
            self.config.selected_bible = None;
            self.clear_selection();
            self.modal = None;
        }
    }
}

} // verus!
