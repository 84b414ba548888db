//! The Bibles on disk and the catalog of Bibles to download.

pub mod catalog;
pub mod library;
