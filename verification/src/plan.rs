//! Which URLs of a list are fetched, given the names already on disk.

use crate::names::last_segment;
use crate::tasks::{task_urls, texts, DownloadTask};
use vstd::prelude::*;

verus! {

/// The lines that hold a URL: the non-empty ones, in their order.
pub open spec fn url_lines(lines: Seq<Seq<char>>) -> Seq<Seq<char>> {
    lines.filter(|line: Seq<char>| line.len() > 0)
}

/// The names that `existing` lists.
pub open spec fn name_set(existing: Seq<String>) -> Set<Seq<char>> {
    texts(existing).to_set()
}

/// The test that keeps a URL: no file of `present` bears its name.
pub open spec fn is_missing(present: Set<Seq<char>>) -> spec_fn(Seq<char>) -> bool {
    |url: Seq<char>| !present.contains(last_segment(url))
}

/// The URLs still to fetch: those of `urls` whose file name is not in
/// `present`, in their order and as often as they occur.
pub open spec fn pending(urls: Seq<Seq<char>>, present: Set<Seq<char>>) -> Seq<Seq<char>> {
    urls.filter(is_missing(present))
}

/// Drops the empty lines of an input list. An empty line names no URL and is
/// never turned into a task.
pub fn non_empty_lines(lines: &Vec<String>) -> (urls: Vec<String>)
    ensures
        texts(urls@) == url_lines(texts(lines@)),
{
    let mut urls: Vec<String> = Vec::new();
    let ghost keep = |line: Seq<char>| line.len() > 0;
    proof {
        reveal(Seq::filter);
        assert(texts(urls@) =~= texts(lines@).take(0).filter(keep));
    }
    let mut i: usize = 0;
    while i < lines.len()
        invariant
            i <= lines.len(),
            keep == |line: Seq<char>| line.len() > 0,
            texts(urls@) == texts(lines@).take(i as int).filter(keep),
        decreases lines.len() - i,
    {
        proof {
            reveal(Seq::filter);
            let next = texts(lines@).take(i + 1);
            assert(next.drop_last() =~= texts(lines@).take(i as int));
            assert(next.last() == lines@[i as int]@);
        }
        if !lines[i].as_str().is_empty() {
            let ghost before = urls@;
            urls.push(lines[i].clone());
            assert(texts(urls@) =~= texts(before).push(lines@[i as int]@));
        }
        i = i + 1;
    }
    assert(texts(lines@).take(i as int) =~= texts(lines@));
    urls
}

/// One task for each URL, in the order of the list.
pub fn candidate_tasks(urls: &Vec<String>) -> (tasks: Vec<DownloadTask>)
    ensures
        task_urls(tasks@) == texts(urls@),
{
    let mut tasks: Vec<DownloadTask> = Vec::new();
    let mut i: usize = 0;
    while i < urls.len()
        invariant
            i <= urls.len(),
            task_urls(tasks@) == texts(urls@).take(i as int),
        decreases urls.len() - i,
    {
        let ghost before = tasks@;
        let task = DownloadTask::new(urls[i].clone());
        tasks.push(task);
        assert(task_urls(tasks@) =~= task_urls(before).push(urls@[i as int]@));
        assert(texts(urls@).take(i + 1) =~= texts(urls@).take(i as int).push(urls@[i as int]@));
        i = i + 1;
    }
    assert(texts(urls@).take(i as int) =~= texts(urls@));
    tasks
}

/// Whether `existing` lists `name`.
pub fn holds_name(existing: &Vec<String>, name: &String) -> (found: bool)
    ensures
        found == name_set(existing@).contains(name@),
{
    let mut i: usize = 0;
    while i < existing.len()
        invariant
            i <= existing.len(),
            forall|j: int| 0 <= j < i ==> texts(existing@)[j] != name@,
        decreases existing.len() - i,
    {
        if existing[i] == *name {
            assert(texts(existing@)[i as int] == name@);
            return true;
        }
        i = i + 1;
    }
    false
}

/// Drops the tasks whose file name is already present: `existing` lists the
/// names found in the output directory. What is left keeps its order.
pub fn pending_tasks(tasks: &Vec<DownloadTask>, existing: &Vec<String>) -> (left: Vec<DownloadTask>)
    ensures
        task_urls(left@) == pending(task_urls(tasks@), name_set(existing@)),
{
    let mut left: Vec<DownloadTask> = Vec::new();
    let ghost present = name_set(existing@);
    proof {
        reveal(Seq::filter);
        assert(task_urls(left@) =~= pending(task_urls(tasks@).take(0), present));
    }
    let mut i: usize = 0;
    while i < tasks.len()
        invariant
            i <= tasks.len(),
            present == name_set(existing@),
            task_urls(left@) == pending(task_urls(tasks@).take(i as int), present),
        decreases tasks.len() - i,
    {
        proof {
            reveal(Seq::filter);
            let next = task_urls(tasks@).take(i + 1);
            assert(next.drop_last() =~= task_urls(tasks@).take(i as int));
            assert(next.last() == tasks@[i as int]@);
        }
        if !holds_name(existing, tasks[i].file_name()) {
            let ghost before = left@;
            left.push(tasks[i].clone());
            assert(task_urls(left@) =~= task_urls(before).push(tasks@[i as int]@));
        }
        i = i + 1;
    }
    assert(task_urls(tasks@).take(i as int) =~= task_urls(tasks@));
    left
}

/// The file names guessed for `urls`, one for each URL and in their order.
pub open spec fn guessed_names(urls: Seq<Seq<char>>) -> Seq<Seq<char>> {
    urls.map_values(|url: Seq<char>| last_segment(url))
}

/// The files of `present` that at least one URL of `urls` is named after.
pub open spec fn matched_names(urls: Seq<Seq<char>>, present: Set<Seq<char>>) -> Set<Seq<char>> {
    guessed_names(urls).to_set().intersect(present)
}

/// How many URLs of `urls` are passed over because their file is present.
pub open spec fn skip_count(urls: Seq<Seq<char>>, present: Set<Seq<char>>) -> int {
    urls.len() - pending(urls, present).len()
}

/// Never more fetches than URLs, and at least one skip for each file of the
/// output directory that a URL is named after: exactly one for each where no
/// two URLs share a file name.
pub proof fn lemma_attempts_and_skips(urls: Seq<Seq<char>>, present: Set<Seq<char>>)
    ensures
        pending(urls, present).len() <= urls.len(),
        matched_names(urls, present).finite(),
        skip_count(urls, present) >= matched_names(urls, present).len(),
        guessed_names(urls).no_duplicates() ==> skip_count(urls, present) == matched_names(
            urls,
            present,
        ).len(),
    decreases urls.len(),
{
    reveal(Seq::filter);
    if urls.len() == 0 {
        assert(matched_names(urls, present) =~= Set::empty());
    } else {
        let rest = urls.drop_last();
        let name = last_segment(urls.last());
        lemma_attempts_and_skips(rest, present);
        assert(guessed_names(urls) =~= guessed_names(rest).push(name));
        guessed_names(rest).lemma_push_to_set_commute(name);
        if present.contains(name) {
            assert(matched_names(urls, present) =~= matched_names(rest, present).insert(name));
        } else {
            assert(matched_names(urls, present) =~= matched_names(rest, present));
        }
        if guessed_names(urls).no_duplicates() {
            assert forall|i: int, j: int|
                0 <= i < j < guessed_names(rest).len() implies guessed_names(rest)[i]
                != guessed_names(rest)[j] by {
                assert(guessed_names(urls)[i] != guessed_names(urls)[j]);
            }
            assert forall|i: int| 0 <= i < guessed_names(rest).len() implies guessed_names(rest)[i]
                != name by {
                assert(guessed_names(urls)[i] != guessed_names(urls)[rest.len() as int]);
            }
            assert(!guessed_names(rest).to_set().contains(name));
        }
    }
}

/// A second pass over the same list fetches nothing, once every name that
/// the first pass was to fetch has joined the files that were present.
pub proof fn lemma_second_pass_is_empty(
    urls: Seq<Seq<char>>,
    present: Set<Seq<char>>,
    after: Set<Seq<char>>,
)
    requires
        present.subset_of(after),
        forall|i: int|
            0 <= i < pending(urls, present).len() ==> after.contains(
                last_segment(#[trigger] pending(urls, present)[i]),
            ),
    ensures
        pending(urls, after) == Seq::<Seq<char>>::empty(),
{
    let again = pending(urls, after);
    let first = pending(urls, present);
    if again.len() > 0 {
        let url = again[0];
        urls.lemma_filter_pred(is_missing(after), 0);
        urls.lemma_filter_contains_rev(is_missing(after), url);
        let j = choose|j: int| 0 <= j < urls.len() && urls[j] == url;
        if !present.contains(last_segment(url)) {
            urls.lemma_filter_contains(is_missing(present), j);
            let i = choose|i: int| 0 <= i < first.len() && first[i] == url;
            assert(after.contains(last_segment(first[i])));
        }
        assert(after.contains(last_segment(url)));
        assert(false);
    }
    assert(again =~= Seq::<Seq<char>>::empty());
}

} // verus!
