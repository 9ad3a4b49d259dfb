//! One download, from the path that getFile told to the file on disk.

use vstd::prelude::*;
use crate::api::DownloadErrorView;
use crate::download;
use crate::download::ActionView;
use crate::download::DownloadView;
use crate::download::EventView;
use crate::download::Phase;
use crate::filenames;
use crate::paths;
use crate::redact;
use crate::text;

verus! {

/// Whether an action ends the download with this error.
pub open spec fn fails_with(action: ActionView, permanent: bool, msg: Seq<char>) -> bool {
    action == ActionView::Finish { outcome: Err(DownloadErrorView { permanent, msg }) }
}

/// A path that is taken has the next one tried: the same name with the next
/// number in it, in the same directory.
pub proof fn taken_paths_lead_to_the_next(d: DownloadView)
    requires
        d.wf(),
        d.phase == Phase::Probing,
    ensures
        ({
            let r = download::next_step(d, EventView::Probed { exists: true });
            let base = d.search->0.base;
            let n = (d.search->0.tried + 1) as nat;
            &&& r.1 == ActionView::Probe {
                path: paths::joined(d.dir, filenames::candidate_name(base, n)),
            }
            &&& r.0.search is Some
            &&& r.0.search->0.base == base
            &&& r.0.search->0.tried == d.search->0.tried + 1
            &&& r.0.phase == Phase::Probing
            &&& r.0.dir == d.dir
            &&& r.0.file_path == d.file_path
            &&& r.0.base == d.base
            &&& r.0.token == d.token
            &&& r.0.file_name == d.file_name
        }),
{
}

/// A file that the local server has on disk, which is told by its path, is
/// copied from there to the free path that was found. Then the server's file
/// is removed, and the download ends with the copy.
pub proof fn local_files_are_copied(d: DownloadView, rest: Seq<char>)
    requires
        d.wf(),
        d.phase == Phase::Probing,
        d.file_path == seq!['/'] + rest,
    ensures
        ({
            let free = paths::joined(
                d.dir,
                filenames::candidate_name(d.search->0.base, d.search->0.tried as nat),
            );
            let a = download::next_step(d, EventView::Probed { exists: false });
            let b = download::next_step(a.0, EventView::Copied);
            let c = download::next_step(b.0, EventView::Removed);
            &&& a.1 == ActionView::Copy { from: d.file_path, to: free }
            &&& a.0.phase == Phase::Copying
            &&& b.1 == ActionView::Remove { path: d.file_path }
            &&& b.0.phase == Phase::Removing
            &&& c.1 == ActionView::Finish { outcome: Ok(free) }
            &&& c.0.phase == Phase::Over
        }),
{
    assert(d.file_path[0] == '/');
}

/// Any other file is fetched from the base, under the bot's token and the path
/// that was told. A success is written to the free path, and the download ends
/// with it.
pub proof fn other_files_are_fetched(d: DownloadView, http_status: u16)
    requires
        d.wf(),
        d.phase == Phase::Probing,
        d.file_path.len() > 0 ==> d.file_path[0] != '/',
        200 <= http_status <= 299,
    ensures
        ({
            let free = paths::joined(
                d.dir,
                filenames::candidate_name(d.search->0.base, d.search->0.tried as nat),
            );
            let a = download::next_step(d, EventView::Probed { exists: false });
            let b = download::next_step(a.0, EventView::Answered { http_status });
            let c = download::next_step(b.0, EventView::Written);
            &&& a.1 matches ActionView::Fetch { request }
            &&& request.url == d.base + "/file/bot"@ + d.token + "/"@ + d.file_path
            &&& request.query.len() == 0
            &&& request.timeout_secs == 300
            &&& a.0.phase == Phase::Fetching
            &&& b.1 == ActionView::Save { path: free }
            &&& b.0.phase == Phase::Saving
            &&& c.1 == ActionView::Finish { outcome: Ok(free) }
            &&& c.0.phase == Phase::Over
        }),
{
}

/// What a download that failed says, and whether it is worth another attempt:
/// not where getFile says so, a local file cannot be read or Telegram blames
/// the request, and in every other case it is. The token is not in it.
pub proof fn failures_say_why(
    d: DownloadView,
    message: Seq<char>,
    error: DownloadErrorView,
    http_status: u16,
)
    requires
        http_status < 200 || http_status > 299,
    ensures
        fails_with(
            download::next_step(d, EventView::Unreachable { message }).1,
            false,
            redact::scrubbed(message, d.token),
        ),
        fails_with(
            download::next_step(d, EventView::Info { found: Err(error) }).1,
            error.permanent,
            error.msg,
        ),
        fails_with(download::next_step(d, EventView::DirFailed { message }).1, false, message),
        fails_with(
            download::next_step(d, EventView::CopyFailed { message }).1,
            true,
            "could not read local file: "@ + message,
        ),
        fails_with(download::next_step(d, EventView::WriteFailed { message }).1, false, message),
        fails_with(
            download::next_step(d, EventView::Answered { http_status }).1,
            400 <= http_status <= 499,
            "file download returned HTTP "@ + text::dec(http_status as nat),
        ),
        download::next_step(d, EventView::Unreachable { message }).0.phase == Phase::Over,
        download::next_step(d, EventView::Info { found: Err(error) }).0.phase == Phase::Over,
        download::next_step(d, EventView::DirFailed { message }).0.phase == Phase::Over,
        download::next_step(d, EventView::CopyFailed { message }).0.phase == Phase::Over,
        download::next_step(d, EventView::WriteFailed { message }).0.phase == Phase::Over,
        download::next_step(d, EventView::Answered { http_status }).0.phase == Phase::Over,
{
}

} // verus!
