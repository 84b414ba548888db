//! The catalog of Bibles that can be downloaded, by language.

use vstd::prelude::*;

verus! {

/// Where the catalog of Bibles is published.
pub const BIBLE_INDEX_URL: &'static str = "https://barbel.org/charist/index.json";

/// A Bible offered for download.
#[derive(Debug, Clone)]
pub struct IndexedBible {
    pub name: String,
    pub long_name: String,
    pub description: String,
    pub download_links: Vec<String>,
}

/// The catalog: for each language, the Bibles offered in it.
pub type BibleCatalog = Vec<(String, Vec<IndexedBible>)>;

} // verus!
