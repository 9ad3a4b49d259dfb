//! What is told of each download, and when.

use vstd::prelude::*;
use crate::api::DownloadErrorView;
use crate::journal::PendingView;
use crate::path_laws;
use crate::paths;
use crate::size;
use crate::status::StatusView;
use crate::worker;
use crate::worker::ActionView;
use crate::worker::EventView;
use crate::worker::Phase;
use crate::worker::WorkerView;

verus! {

/// Whether the worker has a download under way.
pub open spec fn attempts(w: WorkerView, job: PendingView) -> bool {
    &&& w.wf()
    &&& w.phase == Phase::Attempting
    &&& w.job == Some(job)
}

/// Whether an event is the outcome of writing a note.
pub open spec fn noted_or_not(event: EventView) -> bool {
    event is Appended || event is AppendFailed
}

/// A permanent failure is noted with its reason and the caption. Whether or not
/// that note can be written, the one thing that is sent is the reason, behind a
/// warning sign, to the chat of the job. The status says nothing of it, and the
/// job is closed.
pub proof fn permanent_failures_are_answered(
    w: WorkerView,
    st: StatusView,
    jobs: Seq<PendingView>,
    job: PendingView,
    msg: Seq<char>,
    outcome: EventView,
)
    requires
        attempts(w, job),
        noted_or_not(outcome),
    ensures
        ({
            let a = worker::next_step(
                w,
                st,
                jobs,
                EventView::Failed { error: DownloadErrorView { permanent: true, msg } },
            );
            let b = worker::next_step(a.worker, a.status, a.jobs, outcome);
            let c = worker::next_step(b.worker, b.status, b.jobs, EventView::Done);
            let d = worker::next_step(c.worker, c.status, c.jobs, EventView::Done);
            &&& job.caption.len() == 0 ==> a.action == ActionView::Append {
                note: "could not save file: "@ + msg,
            }
            &&& job.caption.len() > 0 ==> a.action == ActionView::Append {
                note: "could not save file: "@ + msg + " — "@ + job.caption,
            }
            &&& b.action == ActionView::Send { chat_id: job.chat_id, message: "⚠️ "@ + msg }
            &&& c.action == ActionView::PersistJournal
            &&& d.action == ActionView::Receive
            &&& d.worker.phase == Phase::Waiting
            &&& d.worker.job is None
            &&& a.status == st
            &&& b.status == st
            &&& c.status == st
            &&& d.status == st
            &&& a.jobs == jobs
            &&& b.jobs == jobs
            &&& forall|j: PendingView| #[trigger]
                d.jobs.contains(j) <==> jobs.contains(j) && j.update_id != job.update_id
        }),
{
    lemma_without(jobs, job.update_id);
}

/// What the list without an update's jobs holds.
proof fn lemma_without(jobs: Seq<PendingView>, id: i64)
    ensures
        forall|j: PendingView| #[trigger]
            crate::journal::without_job(jobs, id).contains(j) <==> jobs.contains(j) && j.update_id
                != id,
    decreases jobs.len(),
{
    let less = crate::journal::without_job(jobs, id);
    if jobs.len() > 0 {
        let front = jobs.drop_last();
        let inner = crate::journal::without_job(front, id);
        lemma_without(front, id);
        assert(jobs =~= front.push(jobs.last()));
        assert forall|j: PendingView| #[trigger] less.contains(j) <==> jobs.contains(j)
            && j.update_id != id by {
            assert(jobs.contains(j) <==> front.contains(j) || j == jobs.last()) by {
                if jobs.contains(j) {
                    let k = choose|k: int| 0 <= k < jobs.len() && jobs[k] == j;
                    if k < front.len() {
                        assert(front[k] == j);
                    }
                }
                if front.contains(j) {
                    let k = choose|k: int| 0 <= k < front.len() && front[k] == j;
                    assert(jobs[k] == j);
                }
                assert(jobs[jobs.len() - 1] == jobs.last());
            }
            if jobs.last().update_id != id {
                assert(less == inner.push(jobs.last()));
                assert(less.contains(j) <==> inner.contains(j) || j == jobs.last()) by {
                    if less.contains(j) {
                        let k = choose|k: int| 0 <= k < less.len() && less[k] == j;
                        if k < inner.len() {
                            assert(inner[k] == j);
                        }
                    }
                    if inner.contains(j) {
                        let k = choose|k: int| 0 <= k < inner.len() && inner[k] == j;
                        assert(less[k] == j);
                    }
                    assert(less[less.len() - 1] == jobs.last());
                }
            }
            assert(inner.contains(j) <==> front.contains(j) && j.update_id != id);
        }
    }
}

/// A file that was saved and noted is counted, reacted to and answered: with
/// its name (the last part of where it is) and its size, in the chat and to the
/// message that it came with.
pub proof fn saved_files_are_told(
    w: WorkerView,
    st: StatusView,
    jobs: Seq<PendingView>,
    job: PendingView,
    dir: Seq<char>,
    name: Seq<char>,
    size: i64,
    at: Seq<char>,
)
    requires
        attempts(w, job),
        st.message_count < u64::MAX,
        path_laws::is_plain_name(name),
    ensures
        ({
            let dest = paths::joined(dir, name);
            let a = worker::next_step(w, st, jobs, EventView::Saved { dest, size });
            let b = worker::next_step(a.worker, a.status, a.jobs, EventView::Appended { at });
            let c = worker::next_step(b.worker, b.status, b.jobs, EventView::Done);
            let d = worker::next_step(c.worker, c.status, c.jobs, EventView::Done);
            let e = worker::next_step(d.worker, d.status, d.jobs, EventView::Done);
            let f = worker::next_step(e.worker, e.status, e.jobs, EventView::Done);
            let words = "saved file: "@ + name + " → "@ + dest;
            &&& job.caption.len() == 0 ==> a.action == ActionView::Append { note: words }
            &&& job.caption.len() > 0 ==> a.action == ActionView::Append {
                note: words + " — "@ + job.caption,
            }
            &&& a.status == st
            &&& b.action == ActionView::PersistStatus
            &&& b.status.message_count == st.message_count + 1
            &&& b.status.last_message_at == Some(at)
            &&& b.status.last_error is None
            &&& b.status.running == st.running
            &&& b.status.username == st.username
            &&& b.status.last_daily_error == st.last_daily_error
            &&& b.status.offset == st.offset
            &&& c.action == ActionView::React { chat_id: job.chat_id, message_id: job.message_id }
            &&& d.action == ActionView::Send {
                chat_id: job.chat_id,
                message: "✅ Saved "@ + name + " ("@ + size::size_text(size as int) + ")"@,
            }
            &&& e.action == ActionView::PersistJournal
            &&& f.action == ActionView::Receive
            &&& f.worker.phase == Phase::Waiting
            &&& f.worker.job is None
            &&& f.status == b.status
            &&& d.jobs == jobs
            &&& forall|j: PendingView| #[trigger]
                f.jobs.contains(j) <==> jobs.contains(j) && j.update_id != job.update_id
        }),
{
    path_laws::joined_names_are_found_again(dir, name);
    lemma_without(jobs, job.update_id);
}

/// The note on a file that was copied in from elsewhere is the same as on one
/// that was received without a caption. A place that ends in no name stands for
/// a "file".
pub proof fn notes_name_the_file(dir: Seq<char>, name: Seq<char>, caption: Seq<char>)
    ensures
        path_laws::is_plain_name(name) ==> {
            let dest = paths::joined(dir, name);
            &&& worker::saved_name(dest) == name
            &&& worker::saved_note(dest, Seq::empty()) == "saved file: "@ + name + " → "@ + dest
            &&& caption.len() > 0 ==> worker::saved_note(dest, caption) == "saved file: "@ + name
                + " → "@ + dest + " — "@ + caption
        },
        paths::file_name(dir) is None ==> worker::saved_name(dir) == "file"@,
        worker::saved_name(Seq::empty()) == "file"@,
        worker::saved_name(seq!['/']) == "file"@,
{
    if path_laws::is_plain_name(name) {
        path_laws::joined_names_are_found_again(dir, name);
    }
    assert(!paths::has_body(seq!['/']));
    assert(paths::trimmed_path(seq!['/']) == seq!['/']);
    assert(paths::trimmed_path(Seq::empty()) == Seq::<char>::empty());
}

/// A file that was saved but could not be noted is answered with a warning that
/// says so, and the status says so too. It is not counted and not reacted to.
pub proof fn unnoted_files_are_told(
    w: WorkerView,
    st: StatusView,
    jobs: Seq<PendingView>,
    job: PendingView,
    dir: Seq<char>,
    name: Seq<char>,
    size: i64,
    message: Seq<char>,
)
    requires
        attempts(w, job),
        path_laws::is_plain_name(name),
    ensures
        ({
            let dest = paths::joined(dir, name);
            let a = worker::next_step(w, st, jobs, EventView::Saved { dest, size });
            let b = worker::next_step(a.worker, a.status, a.jobs, EventView::AppendFailed { message });
            let c = worker::next_step(b.worker, b.status, b.jobs, EventView::Done);
            &&& b.action == ActionView::Send {
                chat_id: job.chat_id,
                message: "⚠️ Downloaded "@ + name + " ("@ + size::size_text(size as int)
                    + ") but couldn't write its note to the file: "@ + message,
            }
            &&& b.status.last_error == Some("file saved but note write failed: "@ + message)
            &&& b.status.message_count == st.message_count
            &&& b.status.last_message_at == st.last_message_at
            &&& b.status.running == st.running
            &&& b.status.username == st.username
            &&& b.status.last_daily_error == st.last_daily_error
            &&& b.status.offset == st.offset
            &&& c.action == ActionView::PersistJournal
            &&& c.status == b.status
            &&& b.jobs == jobs
            &&& forall|j: PendingView| #[trigger]
                c.jobs.contains(j) <==> jobs.contains(j) && j.update_id != job.update_id
        }),
{
    path_laws::joined_names_are_found_again(dir, name);
    lemma_without(jobs, job.update_id);
}

/// A failure that may pass is reported in the status. The worker rests ten
/// seconds and tries the same job again; nobody is told.
pub proof fn passing_failures_are_waited_out(
    w: WorkerView,
    st: StatusView,
    jobs: Seq<PendingView>,
    job: PendingView,
    msg: Seq<char>,
)
    requires
        attempts(w, job),
    ensures
        ({
            let a = worker::next_step(
                w,
                st,
                jobs,
                EventView::Failed { error: DownloadErrorView { permanent: false, msg } },
            );
            let b = worker::next_step(a.worker, a.status, a.jobs, EventView::Done);
            &&& a.action == ActionView::Rest { secs: 10 }
            &&& a.status.last_error == Some("file save failed: "@ + msg)
            &&& a.status.message_count == st.message_count
            &&& a.status.last_message_at == st.last_message_at
            &&& a.status.running == st.running
            &&& a.status.username == st.username
            &&& a.status.last_daily_error == st.last_daily_error
            &&& a.status.offset == st.offset
            &&& b.action == ActionView::Attempt { job }
            &&& b.status == a.status
            &&& attempts(b.worker, job)
            &&& b.jobs == jobs
        }),
{
}

/// A job is attempted as it came, if it is still pending.
pub proof fn pending_jobs_are_attempted(
    w: WorkerView,
    st: StatusView,
    jobs: Seq<PendingView>,
    job: PendingView,
)
    requires
        w.wf(),
        w.phase == Phase::Waiting,
    ensures
        ({
            let r = worker::next_step(w, st, jobs, EventView::Job { job });
            let pending = exists|i: int|
                0 <= i < jobs.len() && (#[trigger] jobs[i]).update_id == job.update_id;
            &&& pending ==> r.action == ActionView::Attempt { job } && attempts(r.worker, job)
            &&& !pending ==> r.action == ActionView::Receive && r.worker == w
            &&& r.status == st
            &&& r.jobs == jobs
        }),
{
}

/// How far the worker is with a file: what it may say from here on.
pub open spec fn may_report_success(w: WorkerView) -> bool {
    w.phase == Phase::Counting || w.phase == Phase::Reacting
}

/// An answer that says that the file was saved is sent only once the note on a
/// saved file was written: the worker gets to where it may be sent in no other
/// way, and whatever else is sent starts with a warning sign.
pub proof fn success_is_reported_only_of_noted_files(
    w: WorkerView,
    st: StatusView,
    jobs: Seq<PendingView>,
    event: EventView,
)
    requires
        w.wf(),
        w.expects(event),
        worker::manageable(w, st, event),
    ensures
        ({
            let r = worker::next_step(w, st, jobs, event);
            &&& may_report_success(r.worker) ==> may_report_success(w) || (w.phase == Phase::Noting
                && event is Appended)
            &&& r.worker.phase == Phase::Noting ==> event is Saved
            &&& r.action matches ActionView::Send { chat_id, message } ==> {
                &&& w.job is Some
                &&& chat_id == w.job->0.chat_id
                &&& message[0] == '✅' ==> may_report_success(w)
                &&& !may_report_success(w) ==> message[0] == '⚠'
            }
            &&& r.action is React ==> may_report_success(w)
        }),
{
    reveal_strlit("⚠️ ");
    reveal_strlit("⚠️ Downloaded ");
    reveal_strlit("✅ Saved ");
}

} // verus!
