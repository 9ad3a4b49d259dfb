//! The downloads of a bot that were promised and are not done yet.

use vstd::prelude::*;
use vstd::string::*;
use crate::text;

verus! {

/// A file download that's been acknowledged to Telegram but not yet saved.
///
/// Downloads run on a background worker so a large (slow) file can't block the
/// bot's poll loop from receiving later messages or honouring a stop request.
/// Because the update is acked to Telegram as soon as it's enqueued (so the
/// long-poll keeps flowing), the job is also written to an on-disk journal:
/// otherwise a crash mid-download would lose the file with no way to re-fetch
/// it. The journal is replayed on the next start.
#[derive(Debug, PartialEq, Eq)]
pub struct PendingDownload {
    pub update_id: i64,
    pub file_id: String,
    pub file_name: Option<String>,
    pub caption: String,
    pub chat_id: i64,
    pub message_id: i64,
}

/// What a [`PendingDownload`] says.
pub struct PendingView {
    pub update_id: i64,
    pub file_id: Seq<char>,
    pub file_name: Option<Seq<char>>,
    pub caption: Seq<char>,
    pub chat_id: i64,
    pub message_id: i64,
}

impl View for PendingDownload {
    type V = PendingView;

    open spec fn view(&self) -> PendingView {
        PendingView {
            update_id: self.update_id,
            file_id: self.file_id@,
            file_name: text::opt_text(self.file_name),
            caption: self.caption@,
            chat_id: self.chat_id,
            message_id: self.message_id,
        }
    }
}

impl Clone for PendingDownload {
    fn clone(&self) -> (r: PendingDownload)
        ensures
            r@ == self@,
    {
        PendingDownload {
            update_id: self.update_id,
            file_id: self.file_id.clone(),
            file_name: text::copy_opt(&self.file_name),
            caption: self.caption.clone(),
            chat_id: self.chat_id,
            message_id: self.message_id,
        }
    }
}

/// Whether a job for the update `update_id` is in the list.
pub open spec fn has_job(jobs: Seq<PendingView>, update_id: i64) -> bool {
    exists|i: int| 0 <= i < jobs.len() && (#[trigger] jobs[i]).update_id == update_id
}

/// The list without the jobs for the update `update_id`.
pub open spec fn without_job(jobs: Seq<PendingView>, update_id: i64) -> Seq<PendingView>
    decreases jobs.len(),
{
    if jobs.len() == 0 {
        Seq::empty()
    } else if jobs.last().update_id == update_id {
        without_job(jobs.drop_last(), update_id)
    } else {
        without_job(jobs.drop_last(), update_id).push(jobs.last())
    }
}

/// Whether no update has two jobs in the list.
pub open spec fn one_job_each(jobs: Seq<PendingView>) -> bool {
    forall|i: int, j: int|
        0 <= i < j < jobs.len() ==> (#[trigger] jobs[i]).update_id != (
        #[trigger] jobs[j]).update_id
}

/// The pending-download journal for one bot, shared between the poll loop
/// (which appends jobs) and the worker (which removes them once done).
pub struct Journal {
    jobs: Vec<PendingDownload>,
}

/// The views of a list of jobs.
pub open spec fn job_views(jobs: Seq<PendingDownload>) -> Seq<PendingView> {
    jobs.map_values(|p: PendingDownload| p@)
}

impl View for Journal {
    type V = Seq<PendingView>;

    closed spec fn view(&self) -> Seq<PendingView> {
        job_views(self.jobs@)
    }
}

impl Journal {
    /// The journal that holds `jobs`.
    pub fn from_jobs(jobs: Vec<PendingDownload>) -> (r: Journal)
        ensures
            r@ == job_views(jobs@),
    {
        Journal { jobs }
    }

    /// The jobs, to be written to disk or to be queued again.
    pub fn jobs(&self) -> (r: Vec<PendingDownload>)
        ensures
            job_views(r@) == self@,
    {
        let mut out: Vec<PendingDownload> = Vec::new();
        let mut i: usize = 0;
        while i < self.jobs.len()
            invariant
                i <= self.jobs@.len(),
                out@.len() == i,
                forall|k: int| 0 <= k < i ==> (#[trigger] out@[k])@ == self.jobs@[k]@,
            decreases self.jobs@.len() - i,
        {
            out.push(self.jobs[i].clone());
            i = i + 1;
        }
        proof {
            assert(job_views(out@) =~= self@);
        }
        out
    }

    /// Whether nothing is pending. An empty journal has no file: its file is
    /// removed rather than written.
    pub fn is_empty(&self) -> (r: bool)
        ensures
            r == (self@.len() == 0),
    {
        self.jobs.len() == 0
    }

    /// Whether a job for the update `update_id` is pending.
    pub fn has(&self, update_id: i64) -> (r: bool)
        ensures
            r == has_job(self@, update_id),
    {
        let mut i: usize = 0;
        while i < self.jobs.len()
            invariant
                i <= self.jobs@.len(),
                forall|k: int| 0 <= k < i ==> (#[trigger] self@[k]).update_id != update_id,
            decreases self.jobs@.len() - i,
        {
            proof {
                assert(self@[i as int] == self.jobs@[i as int]@);
            }
            if self.jobs[i].update_id == update_id {
                return true;
            }
            i = i + 1;
        }
        false
    }

    /// Adds a job.
    pub fn push(&mut self, job: PendingDownload)
        ensures
            final(self)@ == old(self)@.push(job@),
    {
        self.jobs.push(job);
        proof {
            assert(self@ =~= old(self)@.push(job@));
        }
    }

    /// Removes the jobs for the update `update_id`.
    pub fn complete(&mut self, update_id: i64)
        ensures
            final(self)@ == without_job(old(self)@, update_id),
    {
        let ghost before = self@;
        let mut kept: Vec<PendingDownload> = Vec::new();
        let mut i: usize = 0;
        proof {
            assert(before.take(0) =~= Seq::empty());
            assert(job_views(kept@) =~= Seq::empty());
        }
        while i < self.jobs.len()
            invariant
                i <= self.jobs@.len(),
                before == self@,
                job_views(kept@) == without_job(before.take(i as int), update_id),
            decreases self.jobs@.len() - i,
        {
            let ghost shorter = job_views(kept@);
            proof {
                let longer = before.take(i + 1);
                assert(longer.last() == self.jobs@[i as int]@);
                assert(longer.drop_last() =~= before.take(i as int));
            }
            if self.jobs[i].update_id != update_id {
                kept.push(self.jobs[i].clone());
                proof {
                    assert(job_views(kept@) =~= shorter.push(self.jobs@[i as int]@));
                }
            }
            i = i + 1;
        }
        proof {
            assert(before.take(before.len() as int) =~= before);
        }
        self.jobs = kept;
    }
}

// ---- what the journal promises ----

/// What [`without_job`] keeps.
proof fn lemma_without(jobs: Seq<PendingView>, update_id: i64)
    ensures
        !has_job(without_job(jobs, update_id), update_id),
        forall|other: i64|
            other != update_id ==> #[trigger] has_job(without_job(jobs, update_id), other)
                == has_job(jobs, other),
        forall|i: int|
            0 <= i < without_job(jobs, update_id).len() ==> jobs.contains(
                #[trigger] without_job(jobs, update_id)[i],
            ),
    decreases jobs.len(),
{
    let rest = without_job(jobs, update_id);
    if jobs.len() == 0 {
        assert(rest =~= jobs);
    } else {
        let front = jobs.drop_last();
        let kept = without_job(front, update_id);
        lemma_without(front, update_id);
        assert forall|i: int| 0 <= i < rest.len() implies jobs.contains(#[trigger] rest[i]) by {
            if i < kept.len() {
                assert(front.contains(kept[i]));
                let k = choose|k: int| 0 <= k < front.len() && front[k] == kept[i];
                assert(jobs[k] == rest[i]);
            } else {
                assert(jobs[jobs.len() - 1] == rest[i]);
            }
        }
        assert forall|other: i64| other != update_id implies #[trigger] has_job(rest, other)
            == has_job(jobs, other) by {
            assert(has_job(kept, other) == has_job(front, other));
            if has_job(jobs, other) {
                let k = choose|k: int| 0 <= k < jobs.len() && (#[trigger] jobs[k]).update_id == other;
                if k < front.len() {
                    assert(front[k].update_id == other);
                    let m = choose|m: int|
                        0 <= m < kept.len() && (#[trigger] kept[m]).update_id == other;
                    assert(rest[m].update_id == other);
                } else {
                    assert(rest.last() == jobs[k]);
                    assert(rest[rest.len() - 1].update_id == other);
                }
            }
            if has_job(rest, other) {
                let m = choose|m: int| 0 <= m < rest.len() && (#[trigger] rest[m]).update_id == other;
                assert(jobs.contains(rest[m]));
                let k = choose|k: int| 0 <= k < jobs.len() && jobs[k] == rest[m];
                assert(jobs[k].update_id == other);
            }
        }
        if has_job(rest, update_id) {
            let m = choose|m: int| 0 <= m < rest.len() && (#[trigger] rest[m]).update_id == update_id;
            if m < kept.len() {
                assert(kept[m].update_id == update_id);
            }
        }
    }
}

/// A completed job is gone from the journal, so that it is not done again on
/// the next start, and every other job stays.
pub proof fn completed_jobs_leave_alone(jobs: Seq<PendingView>, update_id: i64, other: i64)
    ensures
        !has_job(without_job(jobs, update_id), update_id),
        other != update_id ==> has_job(without_job(jobs, update_id), other) == has_job(jobs, other),
{
    lemma_without(jobs, update_id);
}

/// A journal without two jobs for one update stays one when a job is added
/// for an update that has none, and when a job is completed.
pub proof fn jobs_stay_single(jobs: Seq<PendingView>, job: PendingView, done: i64)
    requires
        one_job_each(jobs),
    ensures
        !has_job(jobs, job.update_id) ==> one_job_each(jobs.push(job)),
        one_job_each(without_job(jobs, done)),
    decreases jobs.len(),
{
    if jobs.len() > 0 {
        let front = jobs.drop_last();
        assert(one_job_each(front)) by {
            assert forall|i: int, j: int| 0 <= i < j < front.len() implies (
            #[trigger] front[i]).update_id != (#[trigger] front[j]).update_id by {
                assert(front[i] == jobs[i] && front[j] == jobs[j]);
            }
        }
        jobs_stay_single(front, job, done);
        lemma_without(front, done);
        let kept = without_job(front, done);
        let last = jobs.last();
        assert(!has_job(front, last.update_id)) by {
            assert forall|i: int| 0 <= i < front.len() implies (#[trigger] front[i]).update_id
                != last.update_id by {
                assert(front[i] == jobs[i]);
                assert(jobs[jobs.len() - 1] == last);
            }
        }
        if last.update_id != done {
            assert(!has_job(kept, last.update_id));
        }
    }
}

/// Completing a job that is not pending changes nothing.
pub proof fn completing_an_absent_job_changes_nothing(jobs: Seq<PendingView>, update_id: i64)
    requires
        !has_job(jobs, update_id),
    ensures
        without_job(jobs, update_id) == jobs,
    decreases jobs.len(),
{
    if jobs.len() > 0 {
        let front = jobs.drop_last();
        assert(!has_job(front, update_id)) by {
            assert forall|i: int| 0 <= i < front.len() implies (#[trigger] front[i]).update_id
                != update_id by {
                assert(front[i] == jobs[i]);
            }
        }
        assert(jobs[jobs.len() - 1] == jobs.last());
        completing_an_absent_job_changes_nothing(front, update_id);
        assert(front.push(jobs.last()) =~= jobs);
    } else {
        assert(without_job(jobs, update_id) =~= jobs);
    }
}

} // verus!
