//! The long-poll loop of one bot.
//!
//! [`Poller`] decides what each update leads to. The app performs the action
//! that [`Poller::step`] returns and hands back what came of it.

use vstd::prelude::*;
use vstd::string::*;
use crate::api;
use crate::api::PollReply;
use crate::api::PollReplyView;
use crate::api::Update;
use crate::api::UpdateView;
use crate::journal;
use crate::journal::Journal;
use crate::journal::PendingDownload;
use crate::journal::PendingView;
use crate::redact;
use crate::size;
use crate::status::BotStatus;
use crate::status::StatusView;
use crate::text;

verus! {

/// What the poller is waiting for.
#[derive(Clone, Copy, PartialEq, Eq, Structural, Debug)]
pub enum Phase {
    /// The reply to getUpdates.
    Polling,
    /// The end of a pause.
    Resting,
    /// The next turn in a batch of updates.
    Handling,
    /// A download that is being journaled and queued.
    Queueing,
    /// A text message that is being written.
    WritingText,
    /// A note on a file that is too large, being written.
    WritingRefusal,
    /// The status that is being persisted at the end of a batch.
    Settling,
}

/// What happened.
#[derive(Debug, PartialEq, Eq)]
pub enum Event {
    /// getUpdates was answered.
    Reply(PollReply),
    /// getUpdates was not answered.
    Unreachable { timed_out: bool, message: String },
    /// The last action is done.
    Done,
    /// The note was written, at the time of day `at`.
    Appended { at: String },
    /// The note could not be written.
    AppendFailed { message: String },
}

/// What an [`Event`] says.
pub enum EventView {
    Reply(PollReplyView),
    Unreachable { timed_out: bool, message: Seq<char> },
    Done,
    Appended { at: Seq<char> },
    AppendFailed { message: Seq<char> },
}

impl View for Event {
    type V = EventView;

    open spec fn view(&self) -> EventView {
        match *self {
            Event::Reply(r) => EventView::Reply(r@),
            Event::Unreachable { timed_out, message } => EventView::Unreachable {
                timed_out,
                message: message@,
            },
            Event::Done => EventView::Done,
            Event::Appended { at } => EventView::Appended { at: at@ },
            Event::AppendFailed { message } => EventView::AppendFailed { message: message@ },
        }
    }
}

/// What is to be done.
#[derive(Debug, PartialEq, Eq)]
pub enum Action {
    /// Ask for the updates from `offset` on, unless the bot was stopped.
    Poll { offset: i64 },
    /// Pause.
    Rest { secs: u64 },
    /// Nothing: go on.
    Next,
    /// Append a note to the markdown file.
    Append { note: String },
    /// Persist the journal, which holds the job already, and hand the job to
    /// the worker.
    Queue { job: PendingDownload },
    /// React to a message.
    React { chat_id: i64, message_id: i64 },
    /// Send a message.
    Send { chat_id: i64, message: String },
    /// Persist the status.
    PersistStatus,
}

/// What an [`Action`] says.
pub enum ActionView {
    Poll { offset: i64 },
    Rest { secs: u64 },
    Next,
    Append { note: Seq<char> },
    Queue { job: PendingView },
    React { chat_id: i64, message_id: i64 },
    Send { chat_id: i64, message: Seq<char> },
    PersistStatus,
}

impl View for Action {
    type V = ActionView;

    open spec fn view(&self) -> ActionView {
        match *self {
            Action::Poll { offset } => ActionView::Poll { offset },
            Action::Rest { secs } => ActionView::Rest { secs },
            Action::Next => ActionView::Next,
            Action::Append { note } => ActionView::Append { note: note@ },
            Action::Queue { job } => ActionView::Queue { job: job@ },
            Action::React { chat_id, message_id } => ActionView::React { chat_id, message_id },
            Action::Send { chat_id, message } => ActionView::Send { chat_id, message: message@ },
            Action::PersistStatus => ActionView::PersistStatus,
        }
    }
}

/// The state of the long-poll loop of one bot.
pub struct Poller {
    token: String,
    allowed_user_id: i64,
    capped: bool,
    offset: i64,
    start_offset: i64,
    batch: Vec<Update>,
    next: usize,
    write_failed: bool,
    phase: Phase,
}

/// What a [`Poller`] holds.
#[verifier::ext_equal]
pub struct PollerView {
    pub token: Seq<char>,
    /// The only user whose messages are saved; 0 for anyone.
    pub allowed_user_id: i64,
    /// Whether downloads are subject to the public API's limit.
    pub capped: bool,
    /// Updates before this one are confirmed.
    pub offset: i64,
    /// The offset at the start of the batch.
    pub start_offset: i64,
    /// The updates of the last reply.
    pub batch: Seq<UpdateView>,
    /// How many of them were taken up.
    pub next: int,
    /// Whether a note could not be written.
    pub write_failed: bool,
    pub phase: Phase,
}

impl View for Poller {
    type V = PollerView;

    closed spec fn view(&self) -> PollerView {
        PollerView {
            token: self.token@,
            allowed_user_id: self.allowed_user_id,
            capped: self.capped,
            offset: self.offset,
            start_offset: self.start_offset,
            batch: api::update_views(self.batch@),
            next: self.next as int,
            write_failed: self.write_failed,
            phase: self.phase,
        }
    }
}

// ---- what an update leads to ----

/// Whether the number behind an update's id is one, too.
pub open spec fn id_in_range(u: UpdateView) -> bool {
    match u.update_id {
        Some(id) => id < i64::MAX,
        None => true,
    }
}

/// Whether that holds of every update of a list.
pub open spec fn ids_in_range(list: Seq<UpdateView>) -> bool {
    forall|i: int| 0 <= i < list.len() ==> id_in_range(#[trigger] list[i])
}

/// The offset after an update was confirmed. It never goes back.
pub open spec fn confirm(offset: i64, update_id: Option<i64>) -> i64 {
    match update_id {
        Some(id) => if id + 1 > offset {
            (id + 1) as i64
        } else {
            offset
        },
        None => offset,
    }
}

/// A note with the caption behind it, where there is one.
pub open spec fn captioned(note: Seq<char>, caption: Seq<char>) -> Seq<char> {
    if caption.len() == 0 {
        note
    } else {
        note + " — "@ + caption
    }
}

/// The name by which a file is spoken of.
pub open spec fn display_name(file_name: Option<Seq<char>>) -> Seq<char> {
    match file_name {
        Some(n) => n,
        None => "file"@,
    }
}

/// The note on a file that is too large.
pub open spec fn refusal_note(u: UpdateView) -> Seq<char> {
    let a = u.attachment->0;
    captioned(
        "could not save file: "@ + display_name(a.file_name) + " is "@ + size::size_text(
            a.file_size as int,
        )
            + " — over the 20 MB Bot API limit; enable the local server to receive it"@,
        u.caption,
    )
}

/// The answer to a file that is too large.
pub open spec fn refusal_reply(u: UpdateView) -> Seq<char> {
    let a = u.attachment->0;
    "⚠️ "@ + display_name(a.file_name) + " ("@ + size::size_text(a.file_size as int)
        + ") is over the 20 MB limit and was not saved."@
}

/// The download that an update with an attachment asks for.
pub open spec fn job_of(u: UpdateView) -> PendingView {
    PendingView {
        update_id: u.update_id->0,
        file_id: u.attachment->0.file_id,
        file_name: u.attachment->0.file_name,
        caption: u.caption,
        chat_id: u.chat_id,
        message_id: u.message_id,
    }
}

/// What is done with an update.
pub enum Decision {
    /// Nothing, but it is confirmed.
    Skip,
    /// Nothing at all: it has no id to confirm it by.
    Leave,
    /// A note is written that its file is too large.
    Refuse,
    /// Its file is downloaded.
    Download,
    /// Its text is written.
    Write,
}

/// What is done with an update: those of strangers are skipped, files are
/// downloaded unless they are queued already or too large, texts are written,
/// and anything else is skipped.
pub open spec fn decide(
    allowed_user_id: i64,
    capped: bool,
    jobs: Seq<PendingView>,
    u: UpdateView,
) -> Decision {
    if allowed_user_id != 0 && u.from_id != allowed_user_id {
        Decision::Skip
    } else if u.attachment is Some {
        if u.update_id is None {
            Decision::Leave
        } else if journal::has_job(jobs, u.update_id->0) {
            Decision::Skip
        } else if capped && u.attachment->0.file_size > api::PUBLIC_DOWNLOAD_LIMIT {
            Decision::Refuse
        } else {
            Decision::Download
        }
    } else if u.text is Some {
        Decision::Write
    } else {
        Decision::Skip
    }
}

// ---- steps ----

/// What a step leads to.
#[verifier::ext_equal]
pub struct Step {
    pub poller: PollerView,
    pub status: StatusView,
    pub jobs: Seq<PendingView>,
    pub action: ActionView,
}

impl PollerView {
    /// The update that was taken up last.
    pub open spec fn current(self) -> UpdateView {
        self.batch[self.next - 1]
    }

    pub open spec fn wf(self) -> bool {
        &&& 0 <= self.next <= self.batch.len()
        &&& ids_in_range(self.batch)
        &&& self.phase == Phase::WritingText ==> self.next > 0 && self.current().text is Some
        &&& self.phase == Phase::Queueing || self.phase == Phase::WritingRefusal ==> self.next > 0
            && self.current().update_id is Some && self.current().attachment is Some
    }

    /// Whether `event` can happen now.
    pub open spec fn expects(self, event: EventView) -> bool {
        match self.phase {
            Phase::Polling => event is Reply || event is Unreachable,
            Phase::Resting | Phase::Handling | Phase::Queueing | Phase::Settling => event is Done,
            Phase::WritingText | Phase::WritingRefusal => event is Appended
                || event is AppendFailed,
        }
    }

    pub open spec fn at(self, phase: Phase) -> PollerView {
        PollerView { phase, ..self }
    }

    pub open spec fn confirmed(self, update_id: Option<i64>) -> PollerView {
        PollerView { offset: confirm(self.offset, update_id), ..self }
    }
}

/// What the reply to getUpdates leads to.
pub open spec fn on_reply(
    s: PollerView,
    st: StatusView,
    jobs: Seq<PendingView>,
    reply: PollReplyView,
) -> Step {
    match reply {
        PollReplyView::Undecodable => Step {
            poller: s.at(Phase::Resting),
            status: st.failed(redact::scrubbed(api::UNDECODABLE@, s.token)),
            jobs,
            action: ActionView::Rest { secs: 5 },
        },
        PollReplyView::Rejected { code, description } => Step {
            poller: s.at(Phase::Resting),
            status: st.failed(
                if code == 409 {
                    "conflict: this token is already being polled elsewhere ("@
                        + redact::scrubbed(description, s.token) + ")"@
                } else {
                    redact::scrubbed(description, s.token)
                },
            ),
            jobs,
            action: ActionView::Rest {
                secs: if code == 409 {
                    15
                } else {
                    5
                },
            },
        },
        PollReplyView::Accepted(updates) => {
            let ok = StatusView { last_error: None, running: true, ..st };
            match updates {
                None => Step {
                    poller: s,
                    status: ok,
                    jobs,
                    action: ActionView::Poll { offset: s.offset },
                },
                Some(list) => Step {
                    poller: PollerView {
                        start_offset: s.offset,
                        batch: list,
                        next: 0,
                        write_failed: false,
                        phase: Phase::Handling,
                        ..s
                    },
                    status: ok,
                    jobs,
                    action: ActionView::Next,
                },
            }
        },
    }
}

/// What a getUpdates that was not answered leads to. Long-poll timeouts are
/// normal; only real errors are recorded.
pub open spec fn on_unreachable(
    s: PollerView,
    st: StatusView,
    jobs: Seq<PendingView>,
    timed_out: bool,
    message: Seq<char>,
) -> Step {
    if timed_out {
        Step { poller: s, status: st, jobs, action: ActionView::Poll { offset: s.offset } }
    } else {
        Step {
            poller: s.at(Phase::Resting),
            status: st.failed(redact::scrubbed(message, s.token)),
            jobs,
            action: ActionView::Rest { secs: 5 },
        }
    }
}

/// What the next update leads to.
pub open spec fn on_update(s: PollerView, st: StatusView, jobs: Seq<PendingView>) -> Step {
    let u = s.batch[s.next];
    let taken = PollerView { next: s.next + 1, ..s };
    match decide(s.allowed_user_id, s.capped, jobs, u) {
        Decision::Skip => Step {
            poller: taken.confirmed(u.update_id),
            status: st,
            jobs,
            action: ActionView::Next,
        },
        Decision::Leave => Step { poller: taken, status: st, jobs, action: ActionView::Next },
        Decision::Refuse => Step {
            poller: taken.at(Phase::WritingRefusal),
            status: st,
            jobs,
            action: ActionView::Append { note: refusal_note(u) },
        },
        Decision::Download => Step {
            poller: taken.at(Phase::Queueing),
            status: st,
            jobs: jobs.push(job_of(u)),
            action: ActionView::Queue { job: job_of(u) },
        },
        Decision::Write => Step {
            poller: taken.at(Phase::WritingText),
            status: st,
            jobs,
            action: ActionView::Append { note: u.text->0 },
        },
    }
}

/// What follows once the status is persisted, or does not have to be.
pub open spec fn after_batch(s: PollerView, st: StatusView, jobs: Seq<PendingView>) -> Step {
    if s.write_failed {
        Step { poller: s.at(Phase::Resting), status: st, jobs, action: ActionView::Rest { secs: 5 } }
    } else {
        Step {
            poller: s.at(Phase::Polling),
            status: st,
            jobs,
            action: ActionView::Poll { offset: s.offset },
        }
    }
}

/// What the end of a batch leads to: an offset that moved is recorded.
pub open spec fn on_batch_end(s: PollerView, st: StatusView, jobs: Seq<PendingView>) -> Step {
    if s.offset != s.start_offset {
        Step {
            poller: s.at(Phase::Settling),
            status: StatusView { offset: s.offset, ..st },
            jobs,
            action: ActionView::PersistStatus,
        }
    } else {
        after_batch(s, st, jobs)
    }
}

/// What a note that was written leads to.
pub open spec fn on_appended(
    s: PollerView,
    st: StatusView,
    jobs: Seq<PendingView>,
    at: Seq<char>,
) -> Step {
    let u = s.current();
    let settled = s.confirmed(u.update_id).at(Phase::Handling);
    if s.phase == Phase::WritingText {
        Step {
            poller: settled,
            status: st.saved(at),
            jobs,
            action: ActionView::React { chat_id: u.chat_id, message_id: u.message_id },
        }
    } else {
        Step {
            poller: settled,
            status: StatusView { last_message_at: Some(at), ..st },
            jobs,
            action: ActionView::Send { chat_id: u.chat_id, message: refusal_reply(u) },
        }
    }
}

/// What an event leads to.
pub open spec fn next_step(
    s: PollerView,
    st: StatusView,
    jobs: Seq<PendingView>,
    event: EventView,
) -> Step {
    match event {
        EventView::Reply(reply) => on_reply(s, st, jobs, reply),
        EventView::Unreachable { timed_out, message } => on_unreachable(
            s,
            st,
            jobs,
            timed_out,
            message,
        ),
        EventView::Appended { at } => on_appended(s, st, jobs, at),
        EventView::AppendFailed { message } => Step {
            poller: PollerView { write_failed: true, phase: Phase::Handling, ..s },
            status: st.failed("write failed: "@ + message),
            jobs,
            action: ActionView::Next,
        },
        EventView::Done => match s.phase {
            Phase::Handling => if s.write_failed || s.next == s.batch.len() {
                on_batch_end(s, st, jobs)
            } else {
                on_update(s, st, jobs)
            },
            Phase::Queueing => Step {
                poller: s.confirmed(s.current().update_id).at(Phase::Handling),
                status: st,
                jobs,
                action: ActionView::Next,
            },
            Phase::Settling => after_batch(s, st, jobs),
            _ => Step {
                poller: s.at(Phase::Polling),
                status: st,
                jobs,
                action: ActionView::Poll { offset: s.offset },
            },
        },
    }
}

/// Whether `event` is one that the bot can cope with: the ids in a reply leave
/// room for the next offset, and the counter of saved messages for one more.
pub open spec fn manageable(s: PollerView, st: StatusView, event: EventView) -> bool {
    match event {
        EventView::Reply(PollReplyView::Accepted(Some(list))) => ids_in_range(list),
        EventView::Appended { at } => s.phase == Phase::WritingText ==> st.message_count
            < u64::MAX,
        _ => true,
    }
}

fn next_offset(offset: i64, update_id: Option<i64>) -> (r: i64)
    requires
        update_id is Some ==> update_id->0 < i64::MAX,
    ensures
        r == confirm(offset, update_id),
{
    match update_id {
        Some(id) => if id + 1 > offset {
            id + 1
        } else {
            offset
        },
        None => offset,
    }
}

pub(crate) fn with_caption(note: String, caption: &str) -> (r: String)
    ensures
        r@ == captioned(note@, caption@),
{
    let mut out = note;
    if !caption.is_empty() {
        out.append(" — ");
        out.append(caption);
    }
    out
}

fn shown_name(file_name: &Option<String>) -> (r: String)
    ensures
        r@ == display_name(text::opt_text(*file_name)),
{
    match file_name {
        Some(n) => n.clone(),
        None => "file".to_owned(),
    }
}

fn write_refusal_note(u: &Update) -> (r: String)
    requires
        u.attachment is Some,
    ensures
        r@ == refusal_note(u@),
{
    match &u.attachment {
        Some(a) => {
            let mut note = "could not save file: ".to_owned();
            note.append(shown_name(&a.file_name).as_str());
            note.append(" is ");
            note.append(size::human_size(a.file_size).as_str());
            note.append(" — over the 20 MB Bot API limit; enable the local server to receive it");
            with_caption(note, u.caption.as_str())
        },
        None => String::new(),
    }
}

fn write_refusal_reply(u: &Update) -> (r: String)
    requires
        u.attachment is Some,
    ensures
        r@ == refusal_reply(u@),
{
    match &u.attachment {
        Some(a) => {
            let mut message = "⚠️ ".to_owned();
            message.append(shown_name(&a.file_name).as_str());
            message.append(" (");
            message.append(size::human_size(a.file_size).as_str());
            message.append(") is over the 20 MB limit and was not saved.");
            message
        },
        None => String::new(),
    }
}

impl Poller {
    /// The loop of a bot that talks to the API at `base` and whose updates
    /// before `offset` are confirmed. It starts by asking for updates.
    pub fn new(base: &str, token: &str, allowed_user_id: i64, offset: i64) -> (r: Poller)
        ensures
            r@.wf(),
            r@ == (PollerView {
                token: token@,
                allowed_user_id,
                capped: base@ == api::DEFAULT_API_BASE@,
                offset,
                start_offset: offset,
                batch: Seq::empty(),
                next: 0,
                write_failed: false,
                phase: Phase::Polling,
            }),
    {
        let r = Poller {
            token: token.to_owned(),
            allowed_user_id,
            capped: api::is_capped(base),
            offset,
            start_offset: offset,
            batch: Vec::new(),
            next: 0,
            write_failed: false,
            phase: Phase::Polling,
        };
        proof {
            assert(r@.batch =~= Seq::empty());
        }
        r
    }

    /// The offset to ask for updates with.
    pub fn offset(&self) -> (r: i64)
        ensures
            r == self@.offset,
    {
        self.offset
    }

    fn take_reply(&mut self, reply: PollReply, status: &mut BotStatus) -> (r: Action)
        requires
            old(self)@.wf(),
            old(self)@.phase == Phase::Polling,
            manageable(old(self)@, old(status)@, EventView::Reply(reply@)),
        ensures
            forall|jobs: Seq<PendingView>| (#[trigger]
                on_reply(old(self)@, old(status)@, jobs, reply@)) == (Step {
                poller: final(self)@,
                status: final(status)@,
                jobs,
                action: r@,
            }),
            final(self)@.wf(),
    {
        match reply {
            PollReply::Undecodable => {
                status.fail(redact::scrub(api::UNDECODABLE.to_owned(), self.token.as_str()));
                self.phase = Phase::Resting;
                Action::Rest { secs: 5 }
            },
            PollReply::Rejected { code, description } => {
                self.phase = Phase::Resting;
                let description = redact::scrub(description, self.token.as_str());
                if code == 409 {
                    let mut message =
                        "conflict: this token is already being polled elsewhere (".to_owned();
                    message.append(description.as_str());
                    message.append(")");
                    status.fail(message);
                    Action::Rest { secs: 15 }
                } else {
                    status.fail(description);
                    Action::Rest { secs: 5 }
                }
            },
            PollReply::Accepted(updates) => {
                status.last_error = None;
                status.running = true;
                match updates {
                    None => Action::Poll { offset: self.offset },
                    Some(list) => {
                        self.start_offset = self.offset;
                        self.batch = list;
                        self.next = 0;
                        self.write_failed = false;
                        self.phase = Phase::Handling;
                        Action::Next
                    },
                }
            },
        }
    }

    fn take_update(&mut self, status: &BotStatus, journal: &mut Journal) -> (r: Action)
        requires
            old(self)@.wf(),
            old(self)@.phase == Phase::Handling,
            old(self)@.next < old(self)@.batch.len(),
        ensures
            on_update(old(self)@, status@, old(journal)@) == (Step {
                poller: final(self)@,
                status: status@,
                jobs: final(journal)@,
                action: r@,
            }),
            final(self)@.wf(),
    {
        let i: usize = self.next;
        let ghost u = self@.batch[i as int];
        proof {
            assert(u == self.batch@[i as int]@);
            assert(id_in_range(u));
            assert(i < self.batch.len());
        }
        let update_id: Option<i64> = self.batch[i].update_id;
        let from_id: i64 = self.batch[i].from_id;
        self.next = i + 1;
        if self.allowed_user_id != 0 && from_id != self.allowed_user_id {
            // Not the owner: ignore, but confirm so it isn't replayed.
            self.offset = next_offset(self.offset, update_id);
            return Action::Next;
        }
        if self.batch[i].attachment.is_some() {
            let id: i64 = match update_id {
                Some(id) => id,
                None => {
                    return Action::Next;
                },
            };
            // Already queued (re-delivered after a crash, or replayed from the
            // journal): just confirm it and move on.
            if journal.has(id) {
                self.offset = next_offset(self.offset, update_id);
                return Action::Next;
            }
            let job = match &self.batch[i].attachment {
                Some(a) => {
                    if self.capped && a.file_size > api::PUBLIC_DOWNLOAD_LIMIT {
                        None
                    } else {
                        Some(
                            PendingDownload {
                                update_id: id,
                                file_id: a.file_id.clone(),
                                file_name: text::copy_opt(&a.file_name),
                                caption: self.batch[i].caption.clone(),
                                chat_id: self.batch[i].chat_id,
                                message_id: self.batch[i].message_id,
                            },
                        )
                    }
                },
                None => None,
            };
            return match job {
                None => {
                    self.phase = Phase::WritingRefusal;
                    Action::Append { note: write_refusal_note(&self.batch[i]) }
                },
                Some(job) => {
                    // Journal the job *before* advancing the offset so a crash
                    // can't ack the update to Telegram with no record of it.
                    journal.push(job.clone());
                    self.phase = Phase::Queueing;
                    Action::Queue { job }
                },
            };
        }
        let note = match &self.batch[i].text {
            Some(t) => Some(t.clone()),
            None => None,
        };
        match note {
            Some(note) => {
                self.phase = Phase::WritingText;
                Action::Append { note }
            },
            None => {
                // Nothing to save, but confirm it so Telegram doesn't keep
                // re-delivering it.
                self.offset = next_offset(self.offset, update_id);
                Action::Next
            },
        }
    }

    fn leave_batch(&mut self) -> (r: Action)
        requires
            old(self)@.wf(),
        ensures
            forall|st: StatusView, jobs: Seq<PendingView>| (#[trigger]
                after_batch(old(self)@, st, jobs)) == (Step {
                poller: final(self)@,
                status: st,
                jobs,
                action: r@,
            }),
            final(self)@.wf(),
    {
        if self.write_failed {
            // Back off briefly on a write failure so Telegram isn't hammered
            // re-fetching the same un-writable message in a tight loop.
            self.phase = Phase::Resting;
            Action::Rest { secs: 5 }
        } else {
            self.phase = Phase::Polling;
            Action::Poll { offset: self.offset }
        }
    }

    /// Takes in what happened, and tells what to do next. The status and the
    /// journal of the bot change as the event asks for.
    pub fn step(&mut self, event: Event, status: &mut BotStatus, journal: &mut Journal) -> (r:
        Action)
        requires
            old(self)@.wf(),
            old(self)@.expects(event@),
            manageable(old(self)@, old(status)@, event@),
        ensures
            next_step(old(self)@, old(status)@, old(journal)@, event@) == (Step {
                poller: final(self)@,
                status: final(status)@,
                jobs: final(journal)@,
                action: r@,
            }),
            final(self)@.wf(),
    {
        match event {
            Event::Reply(reply) => self.take_reply(reply, status),
            Event::Unreachable { timed_out, message } => {
                if timed_out {
                    Action::Poll { offset: self.offset }
                } else {
                    status.fail(redact::scrub(message, self.token.as_str()));
                    self.phase = Phase::Resting;
                    Action::Rest { secs: 5 }
                }
            },
            Event::Appended { at } => {
                let i: usize = self.next - 1;
                proof {
                    assert(self@.current() == self.batch@[i as int]@);
                    assert(id_in_range(self@.batch[i as int]));
                }
                let text_written = self.phase == Phase::WritingText;
                // Only advance past a message once it's safely written.
                self.offset = next_offset(self.offset, self.batch[i].update_id);
                self.phase = Phase::Handling;
                let chat_id: i64 = self.batch[i].chat_id;
                if text_written {
                    status.note_saved(at);
                    Action::React { chat_id, message_id: self.batch[i].message_id }
                } else {
                    // The file was *not* saved, so don't bump the "saved" counter:
                    // just record the activity timestamp for the dashboard.
                    status.last_message_at = Some(at);
                    Action::Send { chat_id, message: write_refusal_reply(&self.batch[i]) }
                }
            },
            Event::AppendFailed { message } => {
                // Do NOT advance the offset: leaving this update unconfirmed makes
                // Telegram re-deliver it next poll, so a transient write failure
                // can't silently drop a note.
                let mut error = "write failed: ".to_owned();
                error.append(message.as_str());
                status.fail(error);
                self.write_failed = true;
                self.phase = Phase::Handling;
                Action::Next
            },
            Event::Done => match self.phase {
                Phase::Handling => {
                    if !self.write_failed && self.next < self.batch.len() {
                        self.take_update(status, journal)
                    } else if self.offset != self.start_offset {
                        // Record the advanced offset so a restart resumes cleanly
                        // without re-delivering already-saved messages.
                        status.offset = self.offset;
                        self.phase = Phase::Settling;
                        Action::PersistStatus
                    } else {
                        self.leave_batch()
                    }
                },
                Phase::Queueing => {
                    let i: usize = self.next - 1;
                    proof {
                        assert(self@.current() == self.batch@[i as int]@);
                        assert(id_in_range(self@.batch[i as int]));
                    }
                    self.offset = next_offset(self.offset, self.batch[i].update_id);
                    self.phase = Phase::Handling;
                    Action::Next
                },
                Phase::Settling => self.leave_batch(),
                _ => {
                    self.phase = Phase::Polling;
                    Action::Poll { offset: self.offset }
                },
            },
        }
    }
}

} // verus!
