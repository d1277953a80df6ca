use batch_download::plan::{candidate_tasks, holds_name, non_empty_lines, pending_tasks};
use batch_download::tasks::DownloadTask;

fn strings(items: &[&str]) -> Vec<String> {
    items.iter().map(|s| s.to_string()).collect()
}

fn pending_urls(urls: &[&str], existing: &[&str]) -> Vec<String> {
    let tasks = candidate_tasks(&strings(urls));
    pending_tasks(&tasks, &strings(existing)).iter().map(|t| t.url().clone()).collect()
}

#[test]
fn task_carries_url_and_guessed_name() {
    let task = DownloadTask::new("http://example.com/a.txt".to_string());
    assert_eq!(task.url(), "http://example.com/a.txt");
    assert_eq!(task.file_name(), "a.txt");
    let copy = task.clone();
    assert_eq!(copy, task);
    assert_eq!(copy.file_name(), "a.txt");
}

#[test]
fn empty_lines_are_dropped_in_order() {
    let lines = strings(&["http://a/x", "", "http://b/y", "", ""]);
    assert_eq!(non_empty_lines(&lines), strings(&["http://a/x", "http://b/y"]));
    assert_eq!(non_empty_lines(&strings(&[""])), Vec::<String>::new());
    assert_eq!(non_empty_lines(&Vec::new()), Vec::<String>::new());
}

#[test]
fn blank_but_not_empty_lines_are_kept() {
    let lines = strings(&[" ", "\t", "x"]);
    assert_eq!(non_empty_lines(&lines), lines);
}

#[test]
fn one_candidate_per_url_in_order() {
    let urls = strings(&["http://example.com/a.txt", "http://example.com/b.txt", "http://example.com/a.txt"]);
    let tasks = candidate_tasks(&urls);
    assert_eq!(tasks.len(), 3);
    assert_eq!(tasks[0].url(), "http://example.com/a.txt");
    assert_eq!(tasks[0].file_name(), "a.txt");
    assert_eq!(tasks[1].url(), "http://example.com/b.txt");
    assert_eq!(tasks[1].file_name(), "b.txt");
    assert_eq!(tasks[2], tasks[0]);
}

#[test]
fn holds_name_finds_exact_names_only() {
    let existing = strings(&["a.txt", "b.txt"]);
    assert!(holds_name(&existing, &"a.txt".to_string()));
    assert!(holds_name(&existing, &"b.txt".to_string()));
    assert!(!holds_name(&existing, &"A.txt".to_string()));
    assert!(!holds_name(&existing, &"a.tx".to_string()));
    assert!(!holds_name(&existing, &"".to_string()));
    assert!(!holds_name(&Vec::new(), &"a.txt".to_string()));
}

#[test]
fn empty_directory_fetches_every_url() {
    let urls = ["http://example.com/a.txt", "http://example.com/b.txt"];
    let tasks = candidate_tasks(&strings(&urls));
    let left = pending_tasks(&tasks, &Vec::new());
    assert_eq!(left.len(), 2);
    assert_eq!(left[0].url(), urls[0]);
    assert_eq!(left[0].file_name(), "a.txt");
    assert_eq!(left[1].url(), urls[1]);
    assert_eq!(left[1].file_name(), "b.txt");
}

#[test]
fn present_file_is_skipped() {
    let urls = ["http://example.com/a.txt", "http://example.com/b.txt"];
    assert_eq!(pending_urls(&urls, &["a.txt"]), strings(&["http://example.com/b.txt"]));
}

#[test]
fn redirecting_url_is_checked_under_its_guessed_name() {
    let urls = ["http://example.com/redirect"];
    assert_eq!(pending_urls(&urls, &["real-file.bin"]), strings(&urls));
    assert_eq!(pending_urls(&urls, &["redirect"]), Vec::<String>::new());
}

#[test]
fn second_pass_fetches_nothing() {
    let urls = strings(&["http://h/a", "http://h/b", "http://h/c", "http://g/b"]);
    let tasks = candidate_tasks(&urls);
    let mut existing = strings(&["c"]);
    let first = pending_tasks(&tasks, &existing);
    assert_eq!(first.len(), 3);
    for task in &first {
        existing.push(task.file_name().clone());
    }
    assert!(pending_tasks(&tasks, &existing).is_empty());
}

#[test]
fn skips_count_matching_files_when_names_differ() {
    let urls = ["http://h/a", "http://h/b", "http://h/c", "http://h/d"];
    let existing = ["b", "d", "unrelated"];
    let left = pending_urls(&urls, &existing);
    assert_eq!(left, strings(&["http://h/a", "http://h/c"]));
    assert_eq!(urls.len() - left.len(), 2);
}

#[test]
fn colliding_names_are_all_skipped() {
    let urls = ["http://h/a", "http://g/a", "http://h/b"];
    let left = pending_urls(&urls, &["a"]);
    assert_eq!(left, strings(&["http://h/b"]));
    assert!(urls.len() - left.len() >= 1);
}

#[test]
fn duplicates_are_kept_as_often_as_listed() {
    let urls = ["http://h/a", "http://h/a"];
    assert_eq!(pending_urls(&urls, &[]), strings(&urls));
}

#[test]
fn empty_name_is_skipped_only_when_reported_present() {
    let urls = ["http://example.com/"];
    assert_eq!(pending_urls(&urls, &[""]), Vec::<String>::new());
    assert_eq!(pending_urls(&urls, &[]), strings(&urls));
}
