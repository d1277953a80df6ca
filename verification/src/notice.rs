//! The lines shown to the user around a fetch.

use crate::names::last_segment;
use crate::tasks::DownloadTask;
use vstd::prelude::*;
use vstd::string::StringExecFns;

verus! {

/// `lead`, then the URL and its file name, each between single quotes and
/// parted by ` - `.
pub open spec fn notice_text(lead: Seq<char>, url: Seq<char>) -> Seq<char> {
    lead + "'"@ + url + "' - '"@ + last_segment(url) + "'"@
}

fn notice(lead: &str, task: &DownloadTask) -> (line: String)
    ensures
        line@ == notice_text(lead@, task@),
{
    let mut line = String::from_str(lead);
    line.append("'");
    line.append(task.url().as_str());
    line.append("' - '");
    line.append(task.file_name().as_str());
    line.append("'");
    line
}

/// The line shown before a task's URL is fetched.
pub fn downloading_notice(task: &DownloadTask) -> (line: String)
    ensures
        line@ == notice_text("Downloading :  "@, task@),
{
    notice("Downloading :  ", task)
}

/// The line shown once a task's body is stored.
pub fn downloaded_notice(task: &DownloadTask) -> (line: String)
    ensures
        line@ == notice_text("Downloaded :  "@, task@),
{
    notice("Downloaded :  ", task)
}

} // verus!
