//! The background worker that drains a bot's download queue.
//!
//! It runs one download at a time (preserving order), retrying transient
//! failures until they succeed, the failure turns out permanent, or the bot
//! stops. Each finished or permanently failed job is removed from the journal
//! so it isn't replayed next start.

use vstd::prelude::*;
use vstd::string::*;
use crate::api::DownloadError;
use crate::api::DownloadErrorView;
use crate::journal;
use crate::journal::Journal;
use crate::journal::PendingDownload;
use crate::journal::PendingView;
use crate::paths;
use crate::poll;
use crate::size;
use crate::status::BotStatus;
use crate::status::StatusView;

verus! {

/// What the worker is waiting for.
#[derive(Clone, Copy, PartialEq, Eq, Structural, Debug)]
pub enum Phase {
    /// A job.
    Waiting,
    /// The outcome of a download.
    Attempting,
    /// The end of a pause before another attempt.
    BackingOff,
    /// The note on a saved file, being written.
    Noting,
    /// The note on a file that could not be saved, being written.
    NotingFailure,
    /// The status, being persisted.
    Counting,
    /// The reaction to the message.
    Reacting,
    /// The answer to the message.
    Answering,
    /// The journal, being persisted.
    Closing,
}

/// What happened.
#[derive(Debug, PartialEq, Eq)]
pub enum Event {
    /// A job came out of the queue.
    Job { job: PendingDownload },
    /// The file is at `dest` and has `size` bytes, or 0 where that is unknown.
    Saved { dest: String, size: i64 },
    /// The file could not be downloaded.
    Failed { error: DownloadError },
    /// The note was written, at the time of day `at`.
    Appended { at: String },
    /// The note could not be written.
    AppendFailed { message: String },
    /// The last action is done.
    Done,
}

/// What an [`Event`] says.
pub enum EventView {
    Job { job: PendingView },
    Saved { dest: Seq<char>, size: i64 },
    Failed { error: DownloadErrorView },
    Appended { at: Seq<char> },
    AppendFailed { message: Seq<char> },
    Done,
}

impl View for Event {
    type V = EventView;

    open spec fn view(&self) -> EventView {
        match *self {
            Event::Job { job } => EventView::Job { job: job@ },
            Event::Saved { dest, size } => EventView::Saved { dest: dest@, size },
            Event::Failed { error } => EventView::Failed { error: error@ },
            Event::Appended { at } => EventView::Appended { at: at@ },
            Event::AppendFailed { message } => EventView::AppendFailed { message: message@ },
            Event::Done => EventView::Done,
        }
    }
}

/// What is to be done.
#[derive(Debug, PartialEq, Eq)]
pub enum Action {
    /// Wait for a job, or for the bot to stop.
    Receive,
    /// Download the file, unless the bot was stopped: then the job stays in the
    /// journal for the next start.
    Attempt { job: PendingDownload },
    /// Pause, or end at once if the bot is stopped.
    Rest { secs: u64 },
    /// Append a note to the markdown file.
    Append { note: String },
    /// Persist the status.
    PersistStatus,
    /// React to a message.
    React { chat_id: i64, message_id: i64 },
    /// Send a message.
    Send { chat_id: i64, message: String },
    /// Persist the journal.
    PersistJournal,
}

/// What an [`Action`] says.
pub enum ActionView {
    Receive,
    Attempt { job: PendingView },
    Rest { secs: u64 },
    Append { note: Seq<char> },
    PersistStatus,
    React { chat_id: i64, message_id: i64 },
    Send { chat_id: i64, message: Seq<char> },
    PersistJournal,
}

impl View for Action {
    type V = ActionView;

    open spec fn view(&self) -> ActionView {
        match *self {
            Action::Receive => ActionView::Receive,
            Action::Attempt { job } => ActionView::Attempt { job: job@ },
            Action::Rest { secs } => ActionView::Rest { secs },
            Action::Append { note } => ActionView::Append { note: note@ },
            Action::PersistStatus => ActionView::PersistStatus,
            Action::React { chat_id, message_id } => ActionView::React { chat_id, message_id },
            Action::Send { chat_id, message } => ActionView::Send { chat_id, message: message@ },
            Action::PersistJournal => ActionView::PersistJournal,
        }
    }
}

/// The state of a bot's download worker.
pub struct Worker {
    job: Option<PendingDownload>,
    name: String,
    size: i64,
    error: String,
    phase: Phase,
}

/// What a [`Worker`] holds.
pub struct WorkerView {
    /// The job at hand.
    pub job: Option<PendingView>,
    /// The name of the file that was saved.
    pub name: Seq<char>,
    /// Its size.
    pub size: i64,
    /// Why the file could not be saved.
    pub error: Seq<char>,
    pub phase: Phase,
}

/// The view of an optional job.
pub open spec fn opt_job(job: Option<PendingDownload>) -> Option<PendingView> {
    match job {
        Some(j) => Some(j@),
        None => None,
    }
}

impl View for Worker {
    type V = WorkerView;

    closed spec fn view(&self) -> WorkerView {
        WorkerView {
            job: opt_job(self.job),
            name: self.name@,
            size: self.size,
            error: self.error@,
            phase: self.phase,
        }
    }
}

// ---- texts ----

/// The name of a saved file.
pub open spec fn saved_name(dest: Seq<char>) -> Seq<char> {
    match paths::file_name(dest) {
        Some(n) => n,
        None => "file"@,
    }
}

/// The note on a saved file.
pub open spec fn saved_note(dest: Seq<char>, caption: Seq<char>) -> Seq<char> {
    poll::captioned("saved file: "@ + saved_name(dest) + " → "@ + dest, caption)
}

/// The answer to a file that was saved.
pub open spec fn saved_answer(name: Seq<char>, size: i64) -> Seq<char> {
    "✅ Saved "@ + name + " ("@ + size::size_text(size as int) + ")"@
}

/// The answer to a file that was saved without a note.
pub open spec fn unnoted_answer(name: Seq<char>, size: i64, message: Seq<char>) -> Seq<char> {
    "⚠️ Downloaded "@ + name + " ("@ + size::size_text(size as int)
        + ") but couldn't write its note to the file: "@ + message
}

/// The note on a file that could not be saved.
pub open spec fn failure_note(msg: Seq<char>, caption: Seq<char>) -> Seq<char> {
    poll::captioned("could not save file: "@ + msg, caption)
}

/// The answer to a file that could not be saved.
pub open spec fn failure_answer(msg: Seq<char>) -> Seq<char> {
    "⚠️ "@ + msg
}

// ---- steps ----

impl WorkerView {
    pub open spec fn wf(self) -> bool {
        self.phase != Phase::Waiting ==> self.job is Some
    }

    /// Whether `event` can happen now.
    pub open spec fn expects(self, event: EventView) -> bool {
        match self.phase {
            Phase::Waiting => event is Job,
            Phase::Attempting => event is Saved || event is Failed,
            Phase::Noting | Phase::NotingFailure => event is Appended || event is AppendFailed,
            _ => event is Done,
        }
    }

    pub open spec fn at(self, phase: Phase) -> WorkerView {
        WorkerView { phase, ..self }
    }
}

/// What a step leads to.
#[verifier::ext_equal]
pub struct Step {
    pub worker: WorkerView,
    pub status: StatusView,
    pub jobs: Seq<PendingView>,
    pub action: ActionView,
}

/// What the outcome of writing a note leads to.
pub open spec fn on_noted(
    w: WorkerView,
    st: StatusView,
    jobs: Seq<PendingView>,
    written: Result<Seq<char>, Seq<char>>,
) -> Step {
    let chat_id = w.job->0.chat_id;
    if w.phase == Phase::NotingFailure {
        Step {
            worker: w.at(Phase::Answering),
            status: st,
            jobs,
            action: ActionView::Send { chat_id, message: failure_answer(w.error) },
        }
    } else {
        match written {
            Ok(at) => Step {
                worker: w.at(Phase::Counting),
                status: st.saved(at),
                jobs,
                action: ActionView::PersistStatus,
            },
            Err(message) => Step {
                worker: w.at(Phase::Answering),
                status: st.failed("file saved but note write failed: "@ + message),
                jobs,
                action: ActionView::Send {
                    chat_id,
                    message: unnoted_answer(w.name, w.size, message),
                },
            },
        }
    }
}

/// What follows once the last action is done.
pub open spec fn on_done(w: WorkerView, st: StatusView, jobs: Seq<PendingView>) -> Step {
    let job = w.job->0;
    match w.phase {
        Phase::BackingOff => Step {
            worker: w.at(Phase::Attempting),
            status: st,
            jobs,
            action: ActionView::Attempt { job },
        },
        Phase::Counting => Step {
            worker: w.at(Phase::Reacting),
            status: st,
            jobs,
            action: ActionView::React { chat_id: job.chat_id, message_id: job.message_id },
        },
        Phase::Reacting => Step {
            worker: w.at(Phase::Answering),
            status: st,
            jobs,
            action: ActionView::Send {
                chat_id: job.chat_id,
                message: saved_answer(w.name, w.size),
            },
        },
        Phase::Answering => Step {
            worker: w.at(Phase::Closing),
            status: st,
            jobs: journal::without_job(jobs, job.update_id),
            action: ActionView::PersistJournal,
        },
        _ => Step {
            worker: WorkerView { job: None, phase: Phase::Waiting, ..w },
            status: st,
            jobs,
            action: ActionView::Receive,
        },
    }
}

/// What an event leads to.
pub open spec fn next_step(
    w: WorkerView,
    st: StatusView,
    jobs: Seq<PendingView>,
    event: EventView,
) -> Step {
    match event {
        EventView::Job { job } => if journal::has_job(jobs, job.update_id) {
            Step {
                worker: WorkerView { job: Some(job), phase: Phase::Attempting, ..w },
                status: st,
                jobs,
                action: ActionView::Attempt { job },
            }
        } else {
            Step { worker: w, status: st, jobs, action: ActionView::Receive }
        },
        EventView::Saved { dest, size } => Step {
            worker: WorkerView { name: saved_name(dest), size, phase: Phase::Noting, ..w },
            status: st,
            jobs,
            action: ActionView::Append { note: saved_note(dest, w.job->0.caption) },
        },
        EventView::Failed { error } => if error.permanent {
            Step {
                worker: WorkerView { error: error.msg, phase: Phase::NotingFailure, ..w },
                status: st,
                jobs,
                action: ActionView::Append { note: failure_note(error.msg, w.job->0.caption) },
            }
        } else {
            Step {
                worker: w.at(Phase::BackingOff),
                status: st.failed("file save failed: "@ + error.msg),
                jobs,
                action: ActionView::Rest { secs: 10 },
            }
        },
        EventView::Appended { at } => on_noted(w, st, jobs, Ok(at)),
        EventView::AppendFailed { message } => on_noted(w, st, jobs, Err(message)),
        EventView::Done => on_done(w, st, jobs),
    }
}

/// Whether `event` is one that the worker can cope with: the counter of saved
/// messages leaves room for one more.
pub open spec fn manageable(w: WorkerView, st: StatusView, event: EventView) -> bool {
    w.phase == Phase::Noting && event is Appended ==> st.message_count < u64::MAX
}

fn name_of(dest: &str) -> (r: String)
    ensures
        r@ == saved_name(dest@),
{
    match paths::base_name(dest) {
        Some(n) => n,
        None => "file".to_owned(),
    }
}

fn write_saved_note(dest: &str, caption: &str) -> (r: String)
    ensures
        r@ == saved_note(dest@, caption@),
{
    let mut note = "saved file: ".to_owned();
    note.append(name_of(dest).as_str());
    note.append(" → ");
    note.append(dest);
    poll::with_caption(note, caption)
}

/// The name and the note of a file that was dropped into the quick-capture
/// window and copied to `dest`: it is recorded as a file that was received.
pub fn dropped_file_note(dest: &str) -> (r: String)
    ensures
        r@ == saved_note(dest@, Seq::empty()),
{
    let none = String::new();
    proof {
        assert(none@ =~= Seq::empty());
    }
    write_saved_note(dest, none.as_str())
}

fn write_saved_answer(name: &str, size: i64) -> (r: String)
    ensures
        r@ == saved_answer(name@, size),
{
    let mut message = "✅ Saved ".to_owned();
    message.append(name);
    message.append(" (");
    message.append(size::human_size(size).as_str());
    message.append(")");
    message
}

fn write_unnoted_answer(name: &str, size: i64, error: &str) -> (r: String)
    ensures
        r@ == unnoted_answer(name@, size, error@),
{
    let mut message = "⚠️ Downloaded ".to_owned();
    message.append(name);
    message.append(" (");
    message.append(size::human_size(size).as_str());
    message.append(") but couldn't write its note to the file: ");
    message.append(error);
    message
}

fn prefixed(prefix: &str, message: &str) -> (r: String)
    ensures
        r@ == prefix@ + message@,
{
    let mut out = prefix.to_owned();
    out.append(message);
    out
}

impl Worker {
    /// A worker without a job. It starts by waiting for one.
    pub fn new() -> (r: Worker)
        ensures
            r@.wf(),
            r@ == (WorkerView {
                job: None,
                name: Seq::empty(),
                size: 0,
                error: Seq::empty(),
                phase: Phase::Waiting,
            }),
    {
        let r = Worker {
            job: None,
            name: String::new(),
            size: 0,
            error: String::new(),
            phase: Phase::Waiting,
        };
        proof {
            assert(r@.name =~= Seq::empty());
            assert(r@.error =~= Seq::empty());
        }
        r
    }

    /// The chat of the job at hand.
    fn chat_id(&self) -> (r: i64)
        requires
            self@.job is Some,
        ensures
            r == self@.job->0.chat_id,
    {
        match &self.job {
            Some(j) => j.chat_id,
            None => 0,
        }
    }

    fn go_on(&mut self, status: &BotStatus, journal: &mut Journal) -> (r: Action)
        requires
            old(self)@.wf(),
            old(self)@.expects(EventView::Done),
        ensures
            on_done(old(self)@, status@, old(journal)@) == (Step {
                worker: final(self)@,
                status: status@,
                jobs: final(journal)@,
                action: r@,
            }),
            final(self)@.wf(),
    {
        match &self.job {
            Some(job) => match self.phase {
                Phase::BackingOff => {
                    let again = job.clone();
                    self.phase = Phase::Attempting;
                    Action::Attempt { job: again }
                },
                Phase::Counting => {
                    let (chat_id, message_id): (i64, i64) = (job.chat_id, job.message_id);
                    self.phase = Phase::Reacting;
                    Action::React { chat_id, message_id }
                },
                Phase::Reacting => {
                    let chat_id: i64 = job.chat_id;
                    self.phase = Phase::Answering;
                    Action::Send {
                        chat_id,
                        message: write_saved_answer(self.name.as_str(), self.size),
                    }
                },
                Phase::Answering => {
                    // Done (saved or permanently failed): drop it from the journal.
                    journal.complete(job.update_id);
                    self.phase = Phase::Closing;
                    Action::PersistJournal
                },
                _ => {
                    self.job = None;
                    self.phase = Phase::Waiting;
                    Action::Receive
                },
            },
            None => Action::Receive,
        }
    }

    fn take_written(&mut self, at: String, status: &mut BotStatus) -> (r: Action)
        requires
            old(self)@.wf(),
            old(self)@.phase == Phase::Noting,
            old(status).message_count < u64::MAX,
        ensures
            forall|jobs: Seq<PendingView>| (#[trigger]
                on_noted(old(self)@, old(status)@, jobs, Ok(at@))) == (Step {
                worker: final(self)@,
                status: final(status)@,
                jobs,
                action: r@,
            }),
            final(self)@.wf(),
    {
        status.note_saved(at);
        self.phase = Phase::Counting;
        Action::PersistStatus
    }

    fn take_unwritten(&mut self, message: String, status: &mut BotStatus) -> (r: Action)
        requires
            old(self)@.wf(),
            old(self)@.phase == Phase::Noting,
        ensures
            forall|jobs: Seq<PendingView>| (#[trigger]
                on_noted(old(self)@, old(status)@, jobs, Err(message@))) == (Step {
                worker: final(self)@,
                status: final(status)@,
                jobs,
                action: r@,
            }),
            final(self)@.wf(),
    {
        // The file downloaded fine but its note couldn't be written. Record the
        // error and say so, rather than sending a misleading "Saved". The file is
        // on disk, so the job is still done: retrying would re-download it.
        status.fail(prefixed("file saved but note write failed: ", message.as_str()));
        let chat_id: i64 = self.chat_id();
        self.phase = Phase::Answering;
        Action::Send {
            chat_id,
            message: write_unnoted_answer(self.name.as_str(), self.size, message.as_str()),
        }
    }

    /// Takes in what happened, and tells what to do next. The status and the
    /// journal of the bot change as the event asks for.
    pub fn step(&mut self, event: Event, status: &mut BotStatus, journal: &mut Journal) -> (r:
        Action)
        requires
            old(self)@.wf(),
            old(self)@.expects(event@),
            manageable(old(self)@, old(status)@, event@),
        ensures
            next_step(old(self)@, old(status)@, old(journal)@, event@) == (Step {
                worker: final(self)@,
                status: final(status)@,
                jobs: final(journal)@,
                action: r@,
            }),
            final(self)@.wf(),
    {
        match event {
            Event::Job { job } => {
                // A duplicate (e.g. replayed from the journal *and* re-delivered
                // after a crash) may already be gone: skip if so.
                if journal.has(job.update_id) {
                    self.job = Some(job.clone());
                    self.phase = Phase::Attempting;
                    Action::Attempt { job }
                } else {
                    Action::Receive
                }
            },
            Event::Saved { dest, size } => {
                let note = match &self.job {
                    Some(job) => write_saved_note(dest.as_str(), job.caption.as_str()),
                    None => String::new(),
                };
                self.name = name_of(dest.as_str());
                self.size = size;
                self.phase = Phase::Noting;
                Action::Append { note }
            },
            Event::Failed { error } => {
                if error.permanent {
                    let opening = prefixed("could not save file: ", error.msg.as_str());
                    let note = match &self.job {
                        Some(job) => poll::with_caption(opening, job.caption.as_str()),
                        None => opening,
                    };
                    self.error = error.msg;
                    self.phase = Phase::NotingFailure;
                    Action::Append { note }
                } else {
                    status.fail(prefixed("file save failed: ", error.msg.as_str()));
                    self.phase = Phase::BackingOff;
                    Action::Rest { secs: 10 }
                }
            },
            Event::Appended { at } => {
                if self.phase == Phase::NotingFailure {
                    let chat_id: i64 = self.chat_id();
                    self.phase = Phase::Answering;
                    Action::Send { chat_id, message: prefixed("⚠️ ", self.error.as_str()) }
                } else {
                    self.take_written(at, status)
                }
            },
            Event::AppendFailed { message } => {
                if self.phase == Phase::NotingFailure {
                    let chat_id: i64 = self.chat_id();
                    self.phase = Phase::Answering;
                    Action::Send { chat_id, message: prefixed("⚠️ ", self.error.as_str()) }
                } else {
                    self.take_unwritten(message, status)
                }
            },
            Event::Done => self.go_on(status, journal),
        }
    }
}

// ---- what the worker promises ----

/// A job leaves the journal only once it was answered: when its file was saved
/// or cannot be had. Nothing else leaves, and nothing comes in. So whatever
/// moment the app stops at, a download that is not done is replayed.
pub proof fn jobs_stay_until_they_are_done(
    w: WorkerView,
    st: StatusView,
    jobs: Seq<PendingView>,
    event: EventView,
)
    requires
        w.wf(),
        w.expects(event),
    ensures
        ({
            let r = next_step(w, st, jobs, event);
            &&& w.phase != Phase::Answering ==> r.jobs == jobs
            &&& w.phase == Phase::Answering ==> r.jobs == journal::without_job(
                jobs,
                w.job->0.update_id,
            )
            &&& r.worker.phase == Phase::Answering ==> w.phase == Phase::Reacting || w.phase
                == Phase::NotingFailure || w.phase == Phase::Noting
        }),
{
}

/// A job that is pending stays pending through every step but the one that ends
/// it.
pub proof fn other_jobs_stay_pending(
    w: WorkerView,
    st: StatusView,
    jobs: Seq<PendingView>,
    event: EventView,
    update_id: i64,
)
    requires
        w.wf(),
        w.expects(event),
        journal::has_job(jobs, update_id),
        !(w.phase == Phase::Answering && w.job->0.update_id == update_id),
    ensures
        journal::has_job(next_step(w, st, jobs, event).jobs, update_id),
{
    if w.phase == Phase::Answering {
        journal::completed_jobs_leave_alone(jobs, w.job->0.update_id, update_id);
    }
}

/// A failure that may pass keeps the job: after a pause the same download is
/// attempted again.
pub proof fn transient_failures_are_retried(
    w: WorkerView,
    st: StatusView,
    jobs: Seq<PendingView>,
    error: DownloadErrorView,
)
    requires
        w.wf(),
        w.phase == Phase::Attempting,
        !error.permanent,
    ensures
        ({
            let paused = next_step(w, st, jobs, EventView::Failed { error });
            let again = next_step(paused.worker, paused.status, paused.jobs, EventView::Done);
            &&& paused.action == (ActionView::Rest { secs: 10 })
            &&& again.action == (ActionView::Attempt { job: w.job->0 })
            &&& again.worker == w
            &&& again.jobs == jobs
        }),
{
}

/// A job that is not in the journal any more is skipped.
pub proof fn finished_jobs_are_skipped(
    w: WorkerView,
    st: StatusView,
    jobs: Seq<PendingView>,
    job: PendingView,
)
    requires
        w.phase == Phase::Waiting,
        !journal::has_job(jobs, job.update_id),
    ensures
        next_step(w, st, jobs, EventView::Job { job }) == (Step {
            worker: w,
            status: st,
            jobs,
            action: ActionView::Receive,
        }),
{
}

/// The counter of saved messages grows by one when the note on a saved file is
/// written, and not otherwise.
pub proof fn only_noted_files_are_counted(
    w: WorkerView,
    st: StatusView,
    jobs: Seq<PendingView>,
    event: EventView,
)
    requires
        w.wf(),
        w.expects(event),
        manageable(w, st, event),
    ensures
        next_step(w, st, jobs, event).status.message_count == st.message_count + (if w.phase
            == Phase::Noting && event is Appended {
            1int
        } else {
            0int
        }),
{
}

/// The way of a file that is saved: its note is written, the status persisted,
/// the message reacted to and answered, in that order. Then the job is gone
/// from the journal, the other jobs are as before, and the worker is free.
pub proof fn saved_files_are_noted_and_answered(
    w: WorkerView,
    st: StatusView,
    jobs: Seq<PendingView>,
    job: PendingView,
    dest: Seq<char>,
    size: i64,
    at: Seq<char>,
    other: i64,
)
    requires
        w.wf(),
        w.phase == Phase::Waiting,
        journal::has_job(jobs, job.update_id),
    ensures
        ({
            let a = next_step(w, st, jobs, EventView::Job { job });
            let b = next_step(a.worker, a.status, a.jobs, EventView::Saved { dest, size });
            let c = next_step(b.worker, b.status, b.jobs, EventView::Appended { at });
            let d = next_step(c.worker, c.status, c.jobs, EventView::Done);
            let e = next_step(d.worker, d.status, d.jobs, EventView::Done);
            let f = next_step(e.worker, e.status, e.jobs, EventView::Done);
            let g = next_step(f.worker, f.status, f.jobs, EventView::Done);
            &&& a.action == (ActionView::Attempt { job })
            &&& b.action == (ActionView::Append { note: saved_note(dest, job.caption) })
            &&& c.action == ActionView::PersistStatus
            &&& c.status == st.saved(at)
            &&& d.action == (ActionView::React {
                chat_id: job.chat_id,
                message_id: job.message_id,
            })
            &&& e.action == (ActionView::Send {
                chat_id: job.chat_id,
                message: saved_answer(saved_name(dest), size),
            })
            &&& f.action == ActionView::PersistJournal
            &&& g.action == ActionView::Receive
            &&& g.worker.phase == Phase::Waiting
            &&& g.worker.job is None
            &&& !journal::has_job(g.jobs, job.update_id)
            &&& other != job.update_id ==> journal::has_job(g.jobs, other) == journal::has_job(
                jobs,
                other,
            )
        }),
{
    journal::completed_jobs_leave_alone(jobs, job.update_id, other);
}

/// Downloads run one at a time, in the order of the queue: a job stays at hand
/// until the worker is free again, and only then is another one taken.
pub proof fn one_job_at_a_time(
    w: WorkerView,
    st: StatusView,
    jobs: Seq<PendingView>,
    event: EventView,
)
    requires
        w.wf(),
        w.expects(event),
    ensures
        ({
            let r = next_step(w, st, jobs, event);
            &&& w.phase != Phase::Waiting && r.worker.phase != Phase::Waiting ==> r.worker.job
                == w.job
            &&& r.action is Receive <==> r.worker.phase == Phase::Waiting
            &&& event is Job ==> w.phase == Phase::Waiting
        }),
{
}

/// Downloading never touches an error of the daily send, nor the offset.
pub proof fn daily_errors_outlast_downloads(
    w: WorkerView,
    st: StatusView,
    jobs: Seq<PendingView>,
    event: EventView,
)
    requires
        w.wf(),
        w.expects(event),
    ensures
        next_step(w, st, jobs, event).status.last_daily_error == st.last_daily_error,
        next_step(w, st, jobs, event).status.offset == st.offset,
{
}

} // verus!
