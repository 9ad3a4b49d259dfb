//! The download of one file.
//!
//! [`Download`] decides how a file is fetched and where it is put. The app
//! performs the action that [`Download::step`] returns and hands back what
//! came of it.

use vstd::prelude::*;
use vstd::string::*;
use crate::api;
use crate::api::DownloadError;
use crate::api::DownloadErrorView;
use crate::api::Get;
use crate::api::GetView;
use crate::clock::LocalTime;
use crate::filenames;
use crate::filenames::DestSearch;
use crate::journal::PendingDownload;
use crate::paths;
use crate::redact;
use crate::text;

verus! {

/// What the download is waiting for.
#[derive(Clone, Copy, PartialEq, Eq, Structural, Debug)]
pub enum Phase {
    /// The reply to getFile.
    Asking,
    /// The directory to save to.
    Preparing,
    /// Whether a path is taken.
    Probing,
    /// A copy of a file that the local server has on disk.
    Copying,
    /// The removal of the local server's file.
    Removing,
    /// The file from Telegram.
    Fetching,
    /// The file being written to disk.
    Saving,
    /// Nothing: the download is over.
    Over,
}

/// What happened.
#[derive(Debug, PartialEq, Eq)]
pub enum Event {
    /// A request was not answered, or its answer could not be read.
    Unreachable { message: String },
    /// What getFile told.
    Info { found: Result<String, DownloadError> },
    /// The directory exists. It is the moment `now`.
    DirReady { now: LocalTime },
    /// The directory could not be made.
    DirFailed { message: String },
    /// Whether the path exists.
    Probed { exists: bool },
    /// The file was copied.
    Copied,
    /// The file could not be copied.
    CopyFailed { message: String },
    /// The local server's file was removed, or could not be.
    Removed,
    /// The file was answered with this HTTP status and, where that is a
    /// success, received whole.
    Answered { http_status: u16 },
    /// The file was written to disk.
    Written,
    /// The file could not be written to disk.
    WriteFailed { message: String },
}

/// What an [`Event`] says.
pub enum EventView {
    Unreachable { message: Seq<char> },
    Info { found: Result<Seq<char>, DownloadErrorView> },
    DirReady { now: LocalTime },
    DirFailed { message: Seq<char> },
    Probed { exists: bool },
    Copied,
    CopyFailed { message: Seq<char> },
    Removed,
    Answered { http_status: u16 },
    Written,
    WriteFailed { message: Seq<char> },
}

impl View for Event {
    type V = EventView;

    open spec fn view(&self) -> EventView {
        match *self {
            Event::Unreachable { message } => EventView::Unreachable { message: message@ },
            Event::Info { found } => EventView::Info { found: api::download_result(found) },
            Event::DirReady { now } => EventView::DirReady { now },
            Event::DirFailed { message } => EventView::DirFailed { message: message@ },
            Event::Probed { exists } => EventView::Probed { exists },
            Event::Copied => EventView::Copied,
            Event::CopyFailed { message } => EventView::CopyFailed { message: message@ },
            Event::Removed => EventView::Removed,
            Event::Answered { http_status } => EventView::Answered { http_status },
            Event::Written => EventView::Written,
            Event::WriteFailed { message } => EventView::WriteFailed { message: message@ },
        }
    }
}

/// What is to be done.
#[derive(Debug, PartialEq, Eq)]
pub enum Action {
    /// Make sure that the directory exists.
    Prepare { dir: String },
    /// See whether a path exists.
    Probe { path: String },
    /// Copy a file on disk.
    Copy { from: String, to: String },
    /// Remove a file on disk, if it can be done.
    Remove { path: String },
    /// Fetch the file.
    Fetch { request: Get },
    /// Write the bytes that were fetched to disk.
    Save { path: String },
    /// The download is over: where the file is, or what went wrong.
    Finish { outcome: Result<String, DownloadError> },
}

/// What an [`Action`] says.
pub enum ActionView {
    Prepare { dir: Seq<char> },
    Probe { path: Seq<char> },
    Copy { from: Seq<char>, to: Seq<char> },
    Remove { path: Seq<char> },
    Fetch { request: GetView },
    Save { path: Seq<char> },
    Finish { outcome: Result<Seq<char>, DownloadErrorView> },
}

impl View for Action {
    type V = ActionView;

    open spec fn view(&self) -> ActionView {
        match *self {
            Action::Prepare { dir } => ActionView::Prepare { dir: dir@ },
            Action::Probe { path } => ActionView::Probe { path: path@ },
            Action::Copy { from, to } => ActionView::Copy { from: from@, to: to@ },
            Action::Remove { path } => ActionView::Remove { path: path@ },
            Action::Fetch { request } => ActionView::Fetch { request: request@ },
            Action::Save { path } => ActionView::Save { path: path@ },
            Action::Finish { outcome } => ActionView::Finish {
                outcome: api::download_result(outcome),
            },
        }
    }
}

/// The state of the download of one file.
pub struct Download {
    base: String,
    token: String,
    file_name: Option<String>,
    dir: String,
    file_path: String,
    search: Option<DestSearch>,
    dest: String,
    phase: Phase,
}

/// What a [`Download`] holds.
pub struct DownloadView {
    pub base: Seq<char>,
    pub token: Seq<char>,
    /// The name that came with the message.
    pub file_name: Option<Seq<char>>,
    /// The directory to save to.
    pub dir: Seq<char>,
    /// The path that getFile told.
    pub file_path: Seq<char>,
    /// The name that the search for a free one started from, and how many were
    /// taken.
    pub search: Option<SearchView>,
    /// Where the file goes.
    pub dest: Seq<char>,
    pub phase: Phase,
}

/// What a search for a free name holds.
pub struct SearchView {
    /// The name that it started from.
    pub base: Seq<char>,
    /// How many names were taken.
    pub tried: int,
}

/// What a search for a free name holds, where there is one.
pub open spec fn search_view(s: Option<DestSearch>) -> Option<SearchView> {
    match s {
        Some(d) => Some(SearchView { base: d.base_name(), tried: d.tried_names() }),
        None => None,
    }
}

impl View for Download {
    type V = DownloadView;

    closed spec fn view(&self) -> DownloadView {
        DownloadView {
            base: self.base@,
            token: self.token@,
            file_name: text::opt_text(self.file_name),
            dir: self.dir@,
            file_path: self.file_path@,
            search: search_view(self.search),
            dest: self.dest@,
            phase: self.phase,
        }
    }
}

impl DownloadView {
    pub open spec fn wf(self) -> bool {
        &&& self.search is Some ==> 0 <= self.search->0.tried <= i32::MAX
        &&& self.phase == Phase::Probing ==> self.search is Some
    }

    /// Whether `event` can happen now.
    pub open spec fn expects(self, event: EventView) -> bool {
        match self.phase {
            Phase::Asking => event is Unreachable || event is Info,
            Phase::Preparing => event is DirReady || event is DirFailed,
            Phase::Probing => event is Probed,
            Phase::Copying => event is Copied || event is CopyFailed,
            Phase::Removing => event is Removed,
            Phase::Fetching => event is Unreachable || event is Answered,
            Phase::Saving => event is Written || event is WriteFailed,
            Phase::Over => false,
        }
    }

    /// The path that is being probed.
    pub open spec fn probed_path(self) -> Seq<char> {
        paths::joined(
            self.dir,
            filenames::candidate_name(self.search->0.base, self.search->0.tried as nat),
        )
    }

    pub open spec fn at(self, phase: Phase) -> DownloadView {
        DownloadView { phase, ..self }
    }
}

/// The end of a download that failed.
pub open spec fn failed(d: DownloadView, permanent: bool, msg: Seq<char>) -> (
    DownloadView,
    ActionView,
) {
    (
        d.at(Phase::Over),
        ActionView::Finish { outcome: Err(DownloadErrorView { permanent, msg }) },
    )
}

/// Whether an HTTP status is a success.
pub open spec fn is_success(http_status: u16) -> bool {
    200 <= http_status < 300
}

/// Whether an HTTP status blames the request.
pub open spec fn is_client_error(http_status: u16) -> bool {
    400 <= http_status < 500
}

/// What an event leads to.
pub open spec fn next_step(d: DownloadView, event: EventView) -> (DownloadView, ActionView) {
    match event {
        EventView::Unreachable { message } => failed(
            d,
            false,
            redact::scrubbed(message, d.token),
        ),
        EventView::Info { found } => match found {
            Err(e) => failed(d, e.permanent, e.msg),
            Ok(path) => (
                DownloadView { file_path: path, phase: Phase::Preparing, ..d },
                ActionView::Prepare { dir: d.dir },
            ),
        },
        EventView::DirFailed { message } => failed(d, false, message),
        EventView::DirReady { now } => {
            let name = filenames::download_name_spec(d.file_name, d.file_path);
            let begun = DownloadView {
                search: Some(SearchView { base: filenames::stamped_name(now, name), tried: 0 }),
                phase: Phase::Probing,
                ..d
            };
            (begun, ActionView::Probe { path: begun.probed_path() })
        },
        EventView::Probed { exists } => if exists {
            let further = DownloadView {
                search: Some(SearchView { tried: d.search->0.tried + 1, ..d.search->0 }),
                ..d
            };
            (further, ActionView::Probe { path: further.probed_path() })
        } else {
            let dest = d.probed_path();
            if paths::absolute(d.file_path) {
                (
                    DownloadView { dest, phase: Phase::Copying, ..d },
                    ActionView::Copy { from: d.file_path, to: dest },
                )
            } else {
                (
                    DownloadView { dest, phase: Phase::Fetching, ..d },
                    ActionView::Fetch { request: api::file_asked(d.base, d.token, d.file_path) },
                )
            }
        },
        EventView::Copied => (d.at(Phase::Removing), ActionView::Remove { path: d.file_path }),
        EventView::CopyFailed { message } => failed(
            d,
            true,
            "could not read local file: "@ + message,
        ),
        EventView::Answered { http_status } => if is_success(http_status) {
            (d.at(Phase::Saving), ActionView::Save { path: d.dest })
        } else {
            failed(
                d,
                is_client_error(http_status),
                "file download returned HTTP "@ + text::dec(http_status as nat),
            )
        },
        EventView::WriteFailed { message } => failed(d, false, message),
        EventView::Removed | EventView::Written => (
            d.at(Phase::Over),
            ActionView::Finish { outcome: Ok(d.dest) },
        ),
    }
}

/// Whether `event` is one that the download can cope with: the clock shows a
/// moment of the calendar, and the names to try have not run out.
pub open spec fn manageable(d: DownloadView, event: EventView) -> bool {
    match event {
        EventView::DirReady { now } => now.is_real(),
        EventView::Probed { exists } => exists ==> d.search->0.tried < i32::MAX,
        _ => true,
    }
}

fn finish_failed(error: DownloadError) -> (r: Action)
    ensures
        r@ == (ActionView::Finish { outcome: Err(error@) }),
{
    Action::Finish { outcome: Err(error) }
}

impl Download {
    /// The download of `job`'s file into `dir`, and the request that it starts
    /// with: getFile resolves a file id to a temporary download path.
    pub fn begin(base: &str, token: &str, job: &PendingDownload, dir: &str) -> (r: (Download, Get))
        ensures
            r.0@.wf(),
            r.0@ == (DownloadView {
                base: base@,
                token: token@,
                file_name: job@.file_name,
                dir: dir@,
                file_path: Seq::empty(),
                search: None,
                dest: Seq::empty(),
                phase: Phase::Asking,
            }),
            r.1@ == api::file_info_asked(base@, token@, job@.file_id),
    {
        let d = Download {
            base: base.to_owned(),
            token: token.to_owned(),
            file_name: text::copy_opt(&job.file_name),
            dir: dir.to_owned(),
            file_path: String::new(),
            search: None,
            dest: String::new(),
            phase: Phase::Asking,
        };
        proof {
            assert(d@.file_path =~= Seq::empty());
            assert(d@.dest =~= Seq::empty());
        }
        (d, api::file_info_request(base, token, job.file_id.as_str()))
    }

    fn take_probe(&mut self, exists: bool) -> (r: Action)
        requires
            old(self)@.wf(),
            old(self)@.phase == Phase::Probing,
            manageable(old(self)@, EventView::Probed { exists }),
        ensures
            next_step(old(self)@, EventView::Probed { exists }) == (final(self)@, r@),
            final(self)@.wf(),
    {
        let mut search = None;
        std::mem::swap(&mut search, &mut self.search);
        match search {
            Some(mut s) => {
                if exists {
                    s.advance();
                    let path = s.candidate(self.dir.as_str());
                    self.search = Some(s);
                    return Action::Probe { path };
                }
                let dest = s.candidate(self.dir.as_str());
                self.search = Some(s);
                self.dest = dest.clone();
                // A self-hosted local Bot API server returns `file_path` as an
                // absolute path to the already-downloaded file on disk rather than
                // a relative URL. In that case copy it straight off disk.
                if paths::is_absolute(self.file_path.as_str()) {
                    self.phase = Phase::Copying;
                    Action::Copy { from: self.file_path.clone(), to: dest }
                } else {
                    self.phase = Phase::Fetching;
                    Action::Fetch {
                        request: api::file_request(
                            self.base.as_str(),
                            self.token.as_str(),
                            self.file_path.as_str(),
                        ),
                    }
                }
            },
            None => Action::Finish { outcome: Ok(self.dest.clone()) },
        }
    }

    /// Takes in what happened, and tells what to do next.
    pub fn step(&mut self, event: Event) -> (r: Action)
        requires
            old(self)@.wf(),
            old(self)@.expects(event@),
            manageable(old(self)@, event@),
        ensures
            next_step(old(self)@, event@) == (final(self)@, r@),
            final(self)@.wf(),
    {
        match event {
            Event::Unreachable { message } => {
                self.phase = Phase::Over;
                finish_failed(
                    DownloadError::transient(redact::scrub(message, self.token.as_str())),
                )
            },
            Event::Info { found } => match found {
                Err(e) => {
                    self.phase = Phase::Over;
                    finish_failed(e)
                },
                Ok(path) => {
                    self.file_path = path;
                    self.phase = Phase::Preparing;
                    Action::Prepare { dir: self.dir.clone() }
                },
            },
            Event::DirFailed { message } => {
                self.phase = Phase::Over;
                finish_failed(DownloadError::transient(message))
            },
            Event::DirReady { now } => {
                let name = filenames::download_name(&self.file_name, self.file_path.as_str());
                let search = DestSearch::at(&now, name.as_str());
                let path = search.candidate(self.dir.as_str());
                self.search = Some(search);
                self.phase = Phase::Probing;
                Action::Probe { path }
            },
            Event::Probed { exists } => self.take_probe(exists),
            Event::Copied => {
                // The local Bot API server doesn't auto-delete downloaded files:
                // without this its data dir grows unbounded.
                self.phase = Phase::Removing;
                Action::Remove { path: self.file_path.clone() }
            },
            Event::CopyFailed { message } => {
                self.phase = Phase::Over;
                let mut msg = "could not read local file: ".to_owned();
                msg.append(message.as_str());
                finish_failed(DownloadError::permanent(msg))
            },
            Event::Answered { http_status } => {
                if 200 <= http_status && http_status < 300 {
                    self.phase = Phase::Saving;
                    return Action::Save { path: self.dest.clone() };
                }
                // 4xx means Telegram won't serve this path (expired or invalid):
                // retrying can't help. 5xx and the like are worth retrying.
                self.phase = Phase::Over;
                let mut msg = "file download returned HTTP ".to_owned();
                msg.append(text::decimal(http_status as u64).as_str());
                if 400 <= http_status && http_status < 500 {
                    finish_failed(DownloadError::permanent(msg))
                } else {
                    finish_failed(DownloadError::transient(msg))
                }
            },
            Event::WriteFailed { message } => {
                self.phase = Phase::Over;
                finish_failed(DownloadError::transient(message))
            },
            Event::Removed => {
                self.phase = Phase::Over;
                Action::Finish { outcome: Ok(self.dest.clone()) }
            },
            Event::Written => {
                self.phase = Phase::Over;
                Action::Finish { outcome: Ok(self.dest.clone()) }
            },
        }
    }
}

// ---- what a download promises ----

/// A download ends well only once the file is on disk: after it was written or,
/// where a local server had it, copied.
pub proof fn finished_downloads_are_on_disk(d: DownloadView, event: EventView)
    requires
        d.wf(),
        d.expects(event),
    ensures
        next_step(d, event).1 matches ActionView::Finish { outcome: Ok(dest) } ==> dest == d.dest
            && (d.phase == Phase::Saving && event is Written || d.phase == Phase::Removing),
        next_step(d, event).0.phase == Phase::Removing ==> d.phase == Phase::Copying
            && event is Copied,
{
}

/// A file of the local server is removed only after it was copied.
pub proof fn local_files_are_removed_after_copying(d: DownloadView, event: EventView)
    requires
        d.wf(),
        d.expects(event),
        next_step(d, event).1 is Remove,
    ensures
        d.phase == Phase::Copying,
        event is Copied,
        next_step(d, event).1->Remove_path == d.file_path,
{
}

/// No file is overwritten: a file is put only where nothing was found.
pub proof fn files_go_to_free_paths(d: DownloadView, event: EventView)
    requires
        d.wf(),
        d.expects(event),
    ensures
        ({
            let t = next_step(d, event).0;
            t.phase == Phase::Copying || t.phase == Phase::Fetching ==> {
                &&& d.phase == Phase::Probing
                &&& event == (EventView::Probed { exists: false })
                &&& t.dest == d.probed_path()
            }
        }),
{
}

/// The file goes directly into the directory that it is to be saved to,
/// whatever name came with it.
pub proof fn downloads_stay_in_their_directory(d: DownloadView, now: LocalTime, n: nat)
    requires
        d.phase == Phase::Preparing,
        now.is_real(),
    ensures
        ({
            let begun = next_step(d, EventView::DirReady { now }).0;
            let tried = DownloadView {
                search: Some(SearchView { tried: n as int, ..begun.search->0 }),
                ..begun
            };
            paths::parent(tried.probed_path()) == Some(paths::trimmed_path(d.dir))
        }),
{
    let name = filenames::download_name_spec(d.file_name, d.file_path);
    filenames::saved_files_stay_in_their_directory(d.dir, now, name, n);
}

/// A file that Telegram won't serve is not asked for again; a server that is
/// in trouble is.
pub proof fn only_client_errors_are_permanent(d: DownloadView, http_status: u16)
    requires
        d.wf(),
        d.phase == Phase::Fetching,
        !(200 <= http_status < 300),
    ensures
        ({
            let action = next_step(d, EventView::Answered { http_status }).1;
            action matches ActionView::Finish { outcome: Err(e) } && e.permanent == (400
                <= http_status < 500)
        }),
{
}

/// What is reported of a request that failed does not hold the token.
pub proof fn the_token_is_not_reported(d: DownloadView, message: Seq<char>)
    requires
        d.token.len() > 0,
        !redact::can_overlap(d.token, redact::marker()),
    ensures
        next_step(d, EventView::Unreachable { message }).1 matches ActionView::Finish {
            outcome: Err(e),
        } && !redact::contains_text(e.msg, d.token),
{
    redact::scrubbing_removes_the_token(message, d.token);
}

} // verus!
