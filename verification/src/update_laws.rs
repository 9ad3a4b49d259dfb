//! What each reply and each update leads to, message by message.

use vstd::prelude::*;
use crate::api::PollReplyView;
use crate::api::UpdateView;
use crate::clock;
use crate::clock::LocalTime;
use crate::download;
use crate::download::DownloadView;
use crate::filenames;
use crate::journal::PendingView;
use crate::name_laws;
use crate::paths;
use crate::poll;
use crate::poll::ActionView;
use crate::poll::EventView;
use crate::poll::Phase;
use crate::poll::PollerView;
use crate::redact;
use crate::size;
use crate::status::StatusView;

verus! {

/// Whether the poller is about to take up an update that the owner sent.
pub open spec fn takes_up(s: PollerView, u: UpdateView) -> bool {
    &&& s.wf()
    &&& s.phase == Phase::Handling
    &&& !s.write_failed
    &&& s.next < s.batch.len()
    &&& s.batch[s.next] == u
    &&& s.allowed_user_id == 0 || u.from_id == s.allowed_user_id
}

/// Whether an update is confirmed by going from `before` to `after`: its
/// successor is asked for, unless a later one was already.
pub open spec fn confirmed_by(before: i64, after: i64, u: UpdateView) -> bool {
    match u.update_id {
        Some(id) => after as int == (if before > id {
            before as int
        } else {
            id + 1
        }),
        None => after == before,
    }
}

/// Whether two statuses differ in nothing but the last error.
pub open spec fn same_but_for_the_error(a: StatusView, b: StatusView) -> bool {
    &&& a.running == b.running
    &&& a.username == b.username
    &&& a.last_daily_error == b.last_daily_error
    &&& a.last_message_at == b.last_message_at
    &&& a.message_count == b.message_count
    &&& a.offset == b.offset
}

// ---- texts ----

/// A text is written as it stands. Once it is written it is confirmed and
/// counted, and its own message is reacted to.
pub proof fn texts_are_written_and_reacted_to(
    s: PollerView,
    st: StatusView,
    jobs: Seq<PendingView>,
    u: UpdateView,
    words: Seq<char>,
    at: Seq<char>,
)
    requires
        takes_up(s, u),
        u.attachment is None,
        u.text == Some(words),
        st.message_count < u64::MAX,
    ensures
        ({
            let a = poll::next_step(s, st, jobs, EventView::Done);
            let b = poll::next_step(a.poller, a.status, a.jobs, EventView::Appended { at });
            &&& a.action == ActionView::Append { note: words }
            &&& a.status == st
            &&& a.poller.offset == s.offset
            &&& b.action == ActionView::React { chat_id: u.chat_id, message_id: u.message_id }
            &&& confirmed_by(s.offset, b.poller.offset, u)
            &&& b.poller.next == s.next + 1
            &&& b.poller.phase == Phase::Handling
            &&& !b.poller.write_failed
            &&& b.jobs == jobs
            &&& b.status.message_count == st.message_count + 1
            &&& b.status.last_message_at == Some(at)
            &&& b.status.last_error is None
            &&& b.status.running == st.running
            &&& b.status.username == st.username
            &&& b.status.last_daily_error == st.last_daily_error
            &&& b.status.offset == st.offset
        }),
{
}

/// A note that cannot be written is reported in the status with the reason, and
/// leaves everything else as it was: nothing is confirmed, counted or queued.
pub proof fn unwritten_notes_are_reported(
    s: PollerView,
    st: StatusView,
    jobs: Seq<PendingView>,
    message: Seq<char>,
)
    requires
        s.wf(),
        s.phase == Phase::WritingText || s.phase == Phase::WritingRefusal,
    ensures
        ({
            let r = poll::next_step(s, st, jobs, EventView::AppendFailed { message });
            &&& r.status.last_error == Some("write failed: "@ + message)
            &&& same_but_for_the_error(r.status, st)
            &&& r.jobs == jobs
            &&& r.action == ActionView::Next
            &&& r.poller.offset == s.offset
            &&& r.poller.write_failed
            &&& r.poller.phase == Phase::Handling
            &&& r.poller.next == s.next
            &&& r.poller.batch == s.batch
        }),
{
}

// ---- files ----

/// The job that an update queues is the update's own: its id, the file's id,
/// the file's name where it has one and none where it has none, the caption, the
/// chat and the message. It goes behind the jobs that are pending already.
pub proof fn jobs_say_what_the_update_says(
    s: PollerView,
    st: StatusView,
    jobs: Seq<PendingView>,
    event: EventView,
)
    requires
        s.wf(),
        s.expects(event),
    ensures
        ({
            let r = poll::next_step(s, st, jobs, event);
            let u = s.batch[s.next];
            r.action matches ActionView::Queue { job } ==> {
                &&& u.update_id == Some(job.update_id)
                &&& u.attachment is Some
                &&& job.file_id == u.attachment->0.file_id
                &&& job.file_name == u.attachment->0.file_name
                &&& job.caption == u.caption
                &&& job.chat_id == u.chat_id
                &&& job.message_id == u.message_id
                &&& r.jobs.len() == jobs.len() + 1
                &&& r.jobs.last() == job
                &&& r.jobs.drop_last() == jobs
            }
        }),
{
    let r = poll::next_step(s, st, jobs, event);
    if r.action is Queue {
        assert(r.jobs.drop_last() =~= jobs);
    }
}

/// A file that is not pending yet and may be fetched (it has at most twenty
/// million bytes, or the bot does not use the public API) is queued, and
/// confirmed once it is.
pub proof fn files_are_queued(
    s: PollerView,
    st: StatusView,
    jobs: Seq<PendingView>,
    u: UpdateView,
    id: i64,
)
    requires
        takes_up(s, u),
        u.attachment is Some,
        u.update_id == Some(id),
        forall|i: int| 0 <= i < jobs.len() ==> (#[trigger] jobs[i]).update_id != id,
        !s.capped || u.attachment->0.file_size <= 20_000_000,
    ensures
        ({
            let a = poll::next_step(s, st, jobs, EventView::Done);
            let b = poll::next_step(a.poller, a.status, a.jobs, EventView::Done);
            &&& a.action is Queue
            &&& a.status == st
            &&& a.poller.offset == s.offset
            &&& b.action == ActionView::Next
            &&& b.status == st
            &&& b.jobs == a.jobs
            &&& confirmed_by(s.offset, b.poller.offset, u)
            &&& b.poller.next == s.next + 1
            &&& b.poller.phase == Phase::Handling
        }),
{
}

/// A file of more than twenty million bytes is not fetched from the public API.
/// The note says so, with the name (or "file"), the size and the caption, and
/// so does the answer, which goes to the chat that the file came from. It is
/// confirmed, and not counted as saved.
pub proof fn large_files_are_refused(
    s: PollerView,
    st: StatusView,
    jobs: Seq<PendingView>,
    u: UpdateView,
    id: i64,
    at: Seq<char>,
)
    requires
        takes_up(s, u),
        u.attachment is Some,
        u.update_id == Some(id),
        forall|i: int| 0 <= i < jobs.len() ==> (#[trigger] jobs[i]).update_id != id,
        s.capped,
        u.attachment->0.file_size > 20_000_000,
    ensures
        ({
            let a = poll::next_step(s, st, jobs, EventView::Done);
            let b = poll::next_step(a.poller, a.status, a.jobs, EventView::Appended { at });
            let name = match u.attachment->0.file_name {
                Some(n) => n,
                None => "file"@,
            };
            let size = size::size_text(u.attachment->0.file_size as int);
            let words = "could not save file: "@ + name + " is "@ + size
                + " — over the 20 MB Bot API limit; enable the local server to receive it"@;
            &&& a.jobs == jobs
            &&& a.status == st
            &&& a.poller.offset == s.offset
            &&& u.caption.len() == 0 ==> a.action == ActionView::Append { note: words }
            &&& u.caption.len() > 0 ==> a.action == ActionView::Append {
                note: words + " — "@ + u.caption,
            }
            &&& b.action == ActionView::Send {
                chat_id: u.chat_id,
                message: "⚠️ "@ + name + " ("@ + size
                    + ") is over the 20 MB limit and was not saved."@,
            }
            &&& b.jobs == jobs
            &&& confirmed_by(s.offset, b.poller.offset, u)
            &&& b.poller.next == s.next + 1
            &&& b.poller.phase == Phase::Handling
            &&& b.status.last_message_at == Some(at)
            &&& b.status.message_count == st.message_count
            &&& b.status.last_error == st.last_error
            &&& b.status.running == st.running
            &&& b.status.username == st.username
            &&& b.status.last_daily_error == st.last_daily_error
            &&& b.status.offset == st.offset
        }),
{
}

/// A file without a name is saved under the last part of the path that getFile
/// told, behind the stamp of the moment.
pub proof fn nameless_files_are_named_by_their_path(
    s: PollerView,
    st: StatusView,
    jobs: Seq<PendingView>,
    event: EventView,
    d: DownloadView,
    front: Seq<char>,
    last: Seq<char>,
    now: LocalTime,
)
    requires
        s.wf(),
        s.expects(event),
        poll::next_step(s, st, jobs, event).action is Queue,
        s.batch[s.next].attachment->0.file_name is None,
        d.file_name == poll::next_step(s, st, jobs, event).action->job.file_name,
        d.phase == download::Phase::Asking,
        front.len() > 0 ==> front.last() == '/' || front.last() == '\\',
        last.len() > 0,
        forall|i: int| 0 <= i < last.len() ==> #[trigger] last[i] != '/' && last[i] != '\\',
    ensures
        ({
            let a = download::next_step(d, download::EventView::Info { found: Ok(front + last) });
            let b = download::next_step(a.0, download::EventView::DirReady { now });
            &&& a.1 == download::ActionView::Prepare { dir: d.dir }
            &&& b.1 == download::ActionView::Probe {
                path: paths::joined(
                    d.dir,
                    clock::file_stamp_text(now) + "_"@ + filenames::sanitized(last),
                ),
            }
        }),
{
    name_laws::the_last_part_names_the_file(front, last);
}

/// A file with a name is saved under that name, whatever path getFile told.
pub proof fn named_files_keep_their_name(
    d: DownloadView,
    name: Seq<char>,
    path: Seq<char>,
    now: LocalTime,
)
    requires
        d.file_name == Some(name),
        d.phase == download::Phase::Asking,
    ensures
        ({
            let a = download::next_step(d, download::EventView::Info { found: Ok(path) });
            let b = download::next_step(a.0, download::EventView::DirReady { now });
            b.1 == download::ActionView::Probe {
                path: paths::joined(
                    d.dir,
                    clock::file_stamp_text(now) + "_"@ + filenames::sanitized(name),
                ),
            }
        }),
{
}

// ---- what is passed over ----

/// What is confirmed without a trace: a message of anyone but the owner, a file
/// that is pending already, and a message with neither text nor file. A file
/// that has no update id is left alone and not confirmed.
pub proof fn the_rest_is_passed_over(
    s: PollerView,
    st: StatusView,
    jobs: Seq<PendingView>,
    u: UpdateView,
)
    requires
        s.wf(),
        s.phase == Phase::Handling,
        !s.write_failed,
        s.next < s.batch.len(),
        s.batch[s.next] == u,
    ensures
        ({
            let r = poll::next_step(s, st, jobs, EventView::Done);
            let stranger = s.allowed_user_id != 0 && u.from_id != s.allowed_user_id;
            let pending = u.attachment is Some && u.update_id is Some && exists|i: int|
                0 <= i < jobs.len() && (#[trigger] jobs[i]).update_id == u.update_id->0;
            let empty = u.attachment is None && u.text is None;
            &&& stranger || pending || empty ==> {
                &&& r.action == ActionView::Next
                &&& r.status == st
                &&& r.jobs == jobs
                &&& confirmed_by(s.offset, r.poller.offset, u)
                &&& r.poller.next == s.next + 1
                &&& r.poller.phase == Phase::Handling
            }
            &&& !stranger && u.attachment is Some && u.update_id is None ==> {
                &&& r.action == ActionView::Next
                &&& r.status == st
                &&& r.jobs == jobs
                &&& r.poller.offset == s.offset
                &&& r.poller.next == s.next + 1
                &&& r.poller.phase == Phase::Handling
            }
        }),
{
}

// ---- replies ----

/// A reply with updates clears the error, marks the bot as running and has
/// every update taken up in turn, from the first.
pub proof fn granted_replies_are_taken_up(
    s: PollerView,
    st: StatusView,
    jobs: Seq<PendingView>,
    updates: Seq<UpdateView>,
)
    requires
        s.wf(),
        s.phase == Phase::Polling,
        poll::ids_in_range(updates),
    ensures
        ({
            let r = poll::next_step(
                s,
                st,
                jobs,
                EventView::Reply(PollReplyView::Accepted(Some(updates))),
            );
            &&& r.poller.batch == updates
            &&& r.poller.next == 0
            &&& r.poller.phase == Phase::Handling
            &&& !r.poller.write_failed
            &&& r.poller.offset == s.offset
            &&& r.poller.start_offset == s.offset
            &&& r.poller.token == s.token
            &&& r.poller.allowed_user_id == s.allowed_user_id
            &&& r.poller.capped == s.capped
            &&& r.action == ActionView::Next
            &&& r.jobs == jobs
            &&& r.status.last_error is None
            &&& r.status.running
            &&& r.status.message_count == st.message_count
            &&& r.status.last_message_at == st.last_message_at
            &&& r.status.username == st.username
            &&& r.status.last_daily_error == st.last_daily_error
            &&& r.status.offset == st.offset
        }),
        ({
            let r = poll::next_step(
                s,
                st,
                jobs,
                EventView::Reply(PollReplyView::Accepted(None)),
            );
            &&& r.poller == s
            &&& r.action == ActionView::Poll { offset: s.offset }
            &&& r.jobs == jobs
            &&& r.status.last_error is None
            &&& r.status.running
            &&& r.status.message_count == st.message_count
            &&& r.status.last_message_at == st.last_message_at
            &&& r.status.username == st.username
            &&& r.status.last_daily_error == st.last_daily_error
            &&& r.status.offset == st.offset
        }),
{
}

/// A refusal is recorded in Telegram's words, without the token. A conflict is
/// called one and rests fifteen seconds, every other failure rests five. A
/// long poll that timed out is no failure: it is repeated at once.
pub proof fn failed_polls_are_reported(
    s: PollerView,
    st: StatusView,
    jobs: Seq<PendingView>,
    code: i64,
    words: Seq<char>,
)
    requires
        s.wf(),
        s.phase == Phase::Polling,
    ensures
        ({
            let r = poll::next_step(
                s,
                st,
                jobs,
                EventView::Reply(PollReplyView::Rejected { code, description: words }),
            );
            let said = redact::scrubbed(words, s.token);
            &&& code == 409 ==> r.status.last_error == Some(
                "conflict: this token is already being polled elsewhere ("@ + said + ")"@,
            ) && r.action == ActionView::Rest { secs: 15 }
            &&& code != 409 ==> r.status.last_error == Some(said) && r.action == ActionView::Rest {
                secs: 5,
            }
            &&& same_but_for_the_error(r.status, st)
            &&& r.jobs == jobs
            &&& r.poller.phase == Phase::Resting
            &&& r.poller.offset == s.offset
        }),
        ({
            let r = poll::next_step(s, st, jobs, EventView::Reply(PollReplyView::Undecodable));
            &&& r.status.last_error == Some(
                redact::scrubbed("error decoding response body"@, s.token),
            )
            &&& same_but_for_the_error(r.status, st)
            &&& r.action == ActionView::Rest { secs: 5 }
            &&& r.jobs == jobs
            &&& r.poller.phase == Phase::Resting
            &&& r.poller.offset == s.offset
        }),
        ({
            let r = poll::next_step(
                s,
                st,
                jobs,
                EventView::Unreachable { timed_out: false, message: words },
            );
            &&& r.status.last_error == Some(redact::scrubbed(words, s.token))
            &&& same_but_for_the_error(r.status, st)
            &&& r.action == ActionView::Rest { secs: 5 }
            &&& r.jobs == jobs
            &&& r.poller.phase == Phase::Resting
            &&& r.poller.offset == s.offset
        }),
        ({
            let r = poll::next_step(
                s,
                st,
                jobs,
                EventView::Unreachable { timed_out: true, message: words },
            );
            &&& r.poller == s
            &&& r.status == st
            &&& r.jobs == jobs
            &&& r.action == ActionView::Poll { offset: s.offset }
        }),
{
}

// ---- the end of a batch ----

/// At the end of a batch an offset that moved is recorded and persisted. Then
/// the next updates are asked for at once, or after five seconds where a note
/// could not be written.
pub proof fn batches_end_in_the_next_poll(s: PollerView, st: StatusView, jobs: Seq<PendingView>)
    requires
        s.wf(),
        s.phase == Phase::Handling,
        s.write_failed || s.next == s.batch.len(),
    ensures
        ({
            let a = poll::next_step(s, st, jobs, EventView::Done);
            let b = if s.offset != s.start_offset {
                poll::next_step(a.poller, a.status, a.jobs, EventView::Done)
            } else {
                a
            };
            let c = if s.write_failed {
                poll::next_step(b.poller, b.status, b.jobs, EventView::Done)
            } else {
                b
            };
            &&& s.offset != s.start_offset ==> a.action == ActionView::PersistStatus
                && a.status.offset == s.offset
            &&& s.offset == s.start_offset ==> a.status.offset == st.offset
            &&& s.write_failed ==> b.action == ActionView::Rest { secs: 5 }
            &&& c.action == ActionView::Poll { offset: s.offset }
            &&& c.poller.phase == Phase::Polling
            &&& c.poller.offset == s.offset
            &&& c.jobs == jobs
            &&& c.status == a.status
            &&& a.status.running == st.running
            &&& a.status.username == st.username
            &&& a.status.last_error == st.last_error
            &&& a.status.last_daily_error == st.last_daily_error
            &&& a.status.last_message_at == st.last_message_at
            &&& a.status.message_count == st.message_count
        }),
{
}

/// A pause ends in another poll from the same offset.
pub proof fn pauses_end_in_a_poll(s: PollerView, st: StatusView, jobs: Seq<PendingView>)
    requires
        s.wf(),
        s.phase == Phase::Resting,
    ensures
        ({
            let r = poll::next_step(s, st, jobs, EventView::Done);
            &&& r.action == ActionView::Poll { offset: s.offset }
            &&& r.poller.phase == Phase::Polling
            &&& r.poller.offset == s.offset
            &&& r.status == st
            &&& r.jobs == jobs
        }),
{
}

} // verus!
