//! Download tasks: a URL paired with the file name guessed from it.

use crate::names::{get_url_file_name, last_segment};
use vstd::prelude::*;

verus! {

/// The character sequences of a list of strings, in order.
pub open spec fn texts(items: Seq<String>) -> Seq<Seq<char>> {
    items.map_values(|s: String| s@)
}

/// One URL to fetch, together with the file name guessed from the URL's text.
/// The name is computed once, when the task is made, and never changes.
#[derive(Debug, PartialEq, Eq)]
pub struct DownloadTask {
    url: String,
    file_name: String,
}

impl View for DownloadTask {
    type V = Seq<char>;

    /// A task is determined by its URL.
    closed spec fn view(&self) -> Seq<char> {
        self.url@
    }
}

impl DownloadTask {
    #[verifier::type_invariant]
    spec fn name_follows_url(self) -> bool {
        self.file_name@ == last_segment(self.url@)
    }

    /// The task for `url`.
    pub fn new(url: String) -> (task: Self)
        ensures
            task@ == url@,
    {
        let file_name = get_url_file_name(&url);
        DownloadTask { url, file_name }
    }

    /// The URL to fetch.
    pub fn url(&self) -> (url: &String)
        ensures
            url@ == self@,
    {
        &self.url
    }

    /// The file name guessed from the URL: the text after its last `/`.
    pub fn file_name(&self) -> (name: &String)
        ensures
            name@ == last_segment(self@),
    {
        proof {
            use_type_invariant(self);
        }
        &self.file_name
    }
}

impl Clone for DownloadTask {
    /// A second task for the same URL.
    fn clone(&self) -> (task: Self)
        ensures
            task@ == self@,
    {
        proof {
            use_type_invariant(self);
        }
        DownloadTask { url: self.url.clone(), file_name: self.file_name.clone() }
    }
}

/// The URLs of a list of tasks, in order.
pub open spec fn task_urls(tasks: Seq<DownloadTask>) -> Seq<Seq<char>> {
    tasks.map_values(|t: DownloadTask| t@)
}

} // verus!
