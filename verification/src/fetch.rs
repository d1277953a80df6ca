//! What a worker does once a fetch has ended: give the URL up, or store the
//! body under a name taken from the address that answered.

use crate::names::{last_segment, lemma_last_segment, slash_free};
use crate::tasks::{texts, DownloadTask};
use vstd::prelude::*;

verus! {

/// The path segments of the URL that `address` spells, as `reqwest::Url`
/// reads it: `None` where the text is no URL, or a URL that cannot be a base.
pub uninterp spec fn resolved_path_segments(address: Seq<char>) -> Option<Seq<Seq<char>>>;

/// The character sequences of a list of path segments, if there is one.
pub open spec fn segment_texts(segments: Option<Vec<String>>) -> Option<Seq<Seq<char>>> {
    match segments {
        Some(parts) => Some(texts(parts@)),
        None => None,
    }
}

/// The name a body is stored under: the last path segment of the address that
/// answered where there is one and it is not empty, else the name guessed
/// before the fetch.
pub open spec fn refined_name(segments: Option<Seq<Seq<char>>>, fallback: Seq<char>) -> Seq<char> {
    match segments {
        Some(parts) => if parts.len() > 0 && parts.last().len() > 0 {
            parts.last()
        } else {
            fallback
        },
        None => fallback,
    }
}

/// How a fetch ended.
#[derive(Debug, PartialEq, Eq)]
pub enum FetchOutcome {
    /// No response came: the connection, the name lookup or the handshake failed.
    Failed,
    /// A response came, whatever its status, from `resolved_url`.
    Responded { resolved_url: String },
}

/// What the worker does next.
#[derive(Debug, PartialEq, Eq)]
pub enum WorkerStep {
    /// Nothing is written for this URL.
    Abandon,
    /// The body is written to `file_name` in the output directory.
    Store { file_name: String },
}

/// The name that `step` stores under, if it stores at all.
pub open spec fn stored_name(step: WorkerStep) -> Option<Seq<char>> {
    match step {
        WorkerStep::Abandon => None,
        WorkerStep::Store { file_name } => Some(file_name@),
    }
}

/// The step that follows `outcome` for the task of `url`.
pub open spec fn step_after(url: Seq<char>, outcome: FetchOutcome) -> Option<Seq<char>> {
    match outcome {
        FetchOutcome::Failed => None,
        FetchOutcome::Responded { resolved_url } => Some(
            refined_name(resolved_path_segments(resolved_url@), last_segment(url)),
        ),
    }
}

/// Trusted: parses `address` with `reqwest::Url::parse` and collects what
/// `Url::path_segments` yields. The contract names that list, and claims one
/// thing of it that `path_segments` shows: it splits the path behind its
/// leading `/` at each `/`, so no segment holds a `/`. A text that does not
/// parse gives `None`, as a URL without path segments does.
#[verifier::external_body]
fn path_segments_of(address: &str) -> (segments: Option<Vec<String>>)
    ensures
        segment_texts(segments) == resolved_path_segments(address@),
        segments matches Some(parts) ==> forall|i: int|
            0 <= i < parts@.len() ==> slash_free(#[trigger] parts@[i]@),
{
    match reqwest::Url::parse(address) {
        Ok(url) => url.path_segments().map(|parts| parts.map(|part| part.to_string()).collect()),
        Err(_) => None,
    }
}

/// Picks the name to store under from the path segments of the address that
/// answered: the last segment unless it is missing or empty, else `fallback`.
pub fn destination_file_name(segments: &Option<Vec<String>>, fallback: &String) -> (name: String)
    ensures
        name@ == refined_name(segment_texts(*segments), fallback@),
{
    match segments {
        Some(parts) => {
            let n: usize = parts.len();
            if n > 0 && !parts[n - 1].as_str().is_empty() {
                assert(texts(parts@).last() == parts@[n - 1]@);
                parts[n - 1].clone()
            } else {
                fallback.clone()
            }
        },
        None => fallback.clone(),
    }
}

/// The name to store under when `resolved_url` answered: the last path
/// segment of that address, or `fallback` where it has none. A `fallback`
/// free of `/` gives a name free of `/`.
pub fn resolve_file_name(resolved_url: &str, fallback: &String) -> (name: String)
    ensures
        name@ == refined_name(resolved_path_segments(resolved_url@), fallback@),
        slash_free(fallback@) ==> slash_free(name@),
{
    let segments = path_segments_of(resolved_url);
    destination_file_name(&segments, fallback)
}

/// Decides what follows a fetch. A failed fetch is given up and leaves no
/// file; a response of any status is stored, under the last path segment of
/// the address that answered, or under the task's own file name where that
/// segment is missing or empty. The name never holds a `/`.
pub fn after_fetch(task: &DownloadTask, outcome: &FetchOutcome) -> (step: WorkerStep)
    ensures
        stored_name(step) == step_after(task@, *outcome),
        step matches WorkerStep::Store { file_name } ==> slash_free(file_name@),
{
    match outcome {
        FetchOutcome::Failed => WorkerStep::Abandon,
        FetchOutcome::Responded { resolved_url } => {
            proof {
                lemma_last_segment(task@);
            }
            let file_name = resolve_file_name(resolved_url.as_str(), task.file_name());
            WorkerStep::Store { file_name }
        },
    }
}

} // verus!
