//! Planning and naming rules of a batch downloader.
//!
//! The library decides which file name a URL maps to, which URLs of a list
//! still have to be fetched given what the output directory already holds,
//! and under which name a fetched body is stored. Reading the list, probing
//! the directory, fetching and writing are left to the caller.

pub mod fetch;
pub mod names;
pub mod notice;
pub mod plan;
pub mod tasks;

pub use names::get_url_file_name;
