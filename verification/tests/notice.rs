use batch_download::notice::{downloaded_notice, downloading_notice};
use batch_download::tasks::DownloadTask;

#[test]
fn downloading_line_quotes_url_and_name() {
    let task = DownloadTask::new("http://example.com/a.txt".to_string());
    assert_eq!(
        downloading_notice(&task),
        "Downloading :  'http://example.com/a.txt' - 'a.txt'"
    );
}

#[test]
fn downloaded_line_quotes_url_and_name() {
    let task = DownloadTask::new("http://example.com/a.txt".to_string());
    assert_eq!(downloaded_notice(&task), "Downloaded :  'http://example.com/a.txt' - 'a.txt'");
}

#[test]
fn notice_of_a_url_without_slash_repeats_it() {
    let task = DownloadTask::new("plain".to_string());
    assert_eq!(downloading_notice(&task), "Downloading :  'plain' - 'plain'");
}
