//! Reading aid for Bible texts: reference parsing, footnote placement,
//! verse selection and copying, and the decisions of the reader's state.

pub mod bibles;
pub mod config;
pub mod footnotes;
pub mod library;
pub mod references;
pub mod search_index;
pub mod state;
pub mod text;
pub mod update;
pub mod view_model;
