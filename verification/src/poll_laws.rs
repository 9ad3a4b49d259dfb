//! What the long-poll loop promises.

use vstd::prelude::*;
use crate::api;
use crate::api::PollReplyView;
use crate::api::UpdateView;
use crate::journal;
use crate::journal::PendingView;
use crate::poll;
use crate::poll::ActionView;
use crate::poll::Decision;
use crate::poll::EventView;
use crate::poll::Phase;
use crate::poll::PollerView;
use crate::redact;
use crate::status::StatusView;

verus! {

// ---- one step ----

/// An update of anyone but the owner writes nothing, queues nothing and
/// changes no status. It is confirmed, so that it isn't replayed.
pub proof fn strangers_are_ignored(s: PollerView, st: StatusView, jobs: Seq<PendingView>)
    requires
        s.wf(),
        s.phase == Phase::Handling,
        !s.write_failed,
        s.next < s.batch.len(),
        s.allowed_user_id != 0,
        s.batch[s.next].from_id != s.allowed_user_id,
    ensures
        ({
            let r = poll::next_step(s, st, jobs, EventView::Done);
            &&& r.action == ActionView::Next
            &&& r.status == st
            &&& r.jobs == jobs
            &&& r.poller == (PollerView {
                next: s.next + 1,
                offset: poll::confirm(s.offset, s.batch[s.next].update_id),
                ..s
            })
        }),
{
}

/// Where an owner is set, a note is written and a download is queued only for
/// a message of the owner. The journal grows in no other way.
pub proof fn only_the_owner_writes(
    s: PollerView,
    st: StatusView,
    jobs: Seq<PendingView>,
    event: EventView,
)
    requires
        s.wf(),
        s.expects(event),
        s.allowed_user_id != 0,
    ensures
        ({
            let r = poll::next_step(s, st, jobs, event);
            &&& r.action is Append || r.action is Queue ==> r.poller.current().from_id
                == s.allowed_user_id
            &&& r.jobs != jobs ==> r.action is Queue
        }),
{
}

/// The offset never goes back, whatever happens.
pub proof fn the_offset_never_goes_back(
    s: PollerView,
    st: StatusView,
    jobs: Seq<PendingView>,
    event: EventView,
)
    requires
        s.wf(),
        s.expects(event),
    ensures
        poll::next_step(s, st, jobs, event).poller.offset >= s.offset,
{
    if s.next < s.batch.len() {
        assert(poll::id_in_range(s.batch[s.next]));
    }
    if s.next > 0 {
        assert(poll::id_in_range(s.batch[s.next - 1]));
    }
}

/// Whether the updates of a list come in the order of their ids, as Telegram
/// delivers them.
pub open spec fn in_order(list: Seq<UpdateView>) -> bool {
    forall|i: int, j: int|
        0 <= i < j < list.len() && (#[trigger] list[i]).update_id is Some && (
        #[trigger] list[j]).update_id is Some ==> list[i].update_id->0 < list[j].update_id->0
}

/// Whether no update of a list from `from` on is confirmed by `offset`.
pub open spec fn unconfirmed(list: Seq<UpdateView>, from: int, offset: i64) -> bool {
    forall|k: int|
        from <= k < list.len() && 0 <= k && (#[trigger] list[k]).update_id is Some
            ==> list[k].update_id->0 >= offset
}

/// The first update of the batch that is not settled: neither skipped, nor
/// written, nor journaled.
pub open spec fn first_unsettled(s: PollerView) -> int {
    if s.write_failed || s.phase == Phase::Queueing || s.phase == Phase::WritingText || s.phase
        == Phase::WritingRefusal {
        s.next - 1
    } else {
        s.next
    }
}

/// Whether every update of the batch that is not settled is unconfirmed.
pub open spec fn nothing_lost(s: PollerView) -> bool {
    &&& in_order(s.batch)
    &&& unconfirmed(s.batch, first_unsettled(s), s.offset)
    &&& s.write_failed ==> s.next > 0
    &&& s.write_failed ==> s.phase != Phase::Queueing && s.phase != Phase::WritingText && s.phase
        != Phase::WritingRefusal
}

/// An update is not confirmed to Telegram before it is settled: before it is
/// skipped, its note is written or its download is journaled. So Telegram
/// delivers it again if the app stops in between, or if its note could not be
/// written. This holds of every state that is reached from one where it holds,
/// as long as Telegram delivers updates in order and from the offset on that
/// it is asked for.
pub proof fn unsettled_updates_stay_unconfirmed(
    s: PollerView,
    st: StatusView,
    jobs: Seq<PendingView>,
    event: EventView,
)
    requires
        s.wf(),
        s.expects(event),
        nothing_lost(s),
        event matches EventView::Reply(PollReplyView::Accepted(Some(list))) ==> in_order(list)
            && unconfirmed(list, 0, s.offset),
    ensures
        nothing_lost(poll::next_step(s, st, jobs, event).poller),
        poll::next_step(s, st, jobs, event).action matches ActionView::Poll { offset }
            ==> unconfirmed(s.batch, first_unsettled(s), offset),
{
    let r = poll::next_step(s, st, jobs, event);
    let t = r.poller;
    if s.next < s.batch.len() {
        assert(poll::id_in_range(s.batch[s.next]));
    }
    if s.next > 0 {
        assert(poll::id_in_range(s.batch[s.next - 1]));
    }
    assert forall|k: int|
        first_unsettled(t) <= k < t.batch.len() && 0 <= k && (
        #[trigger] t.batch[k]).update_id is Some implies t.batch[k].update_id->0 >= t.offset by {
        if t.batch == s.batch && t.offset != s.offset {
            if s.phase == Phase::Handling {
                assert(k > s.next);
                assert(s.batch[s.next].update_id is Some);
            } else {
                assert(k > s.next - 1);
                assert(s.batch[s.next - 1].update_id is Some);
            }
        }
    }
}

/// The offset moves only once an update is settled, and then just past it: the
/// note on it was written, its download was queued, or there was nothing to do
/// for it.
pub proof fn confirmations_follow_settlement(
    s: PollerView,
    st: StatusView,
    jobs: Seq<PendingView>,
    event: EventView,
)
    requires
        s.wf(),
        s.expects(event),
    ensures
        ({
            let r = poll::next_step(s, st, jobs, event);
            r.poller.offset != s.offset ==> {
                let u = r.poller.current();
                &&& u.update_id is Some
                &&& r.poller.offset == u.update_id->0 + 1
                &&& match s.phase {
                    Phase::WritingText | Phase::WritingRefusal => event is Appended && u
                        == s.current(),
                    Phase::Queueing => u == s.current(),
                    _ => s.phase == Phase::Handling && u == s.batch[s.next] && poll::decide(
                        s.allowed_user_id,
                        s.capped,
                        jobs,
                        u,
                    ) is Skip,
                }
            }
        }),
{
    if s.next < s.batch.len() {
        assert(poll::id_in_range(s.batch[s.next]));
    }
    if s.next > 0 {
        assert(poll::id_in_range(s.batch[s.next - 1]));
    }
}

/// Nothing is skipped that could be saved: an update of the owner (of anyone,
/// where there is none) that has an id is skipped only if it holds neither a
/// text nor a file, or if its file is queued already.
pub proof fn nothing_savable_is_skipped(
    allowed_user_id: i64,
    capped: bool,
    jobs: Seq<PendingView>,
    u: UpdateView,
)
    requires
        allowed_user_id == 0 || u.from_id == allowed_user_id,
        u.update_id is Some,
    ensures
        poll::decide(allowed_user_id, capped, jobs, u) is Skip <==> (u.text is None
            && u.attachment is None) || (u.attachment is Some && journal::has_job(
            jobs,
            u.update_id->0,
        )),
        !(poll::decide(allowed_user_id, capped, jobs, u) is Leave),
{
}

/// Polling never touches an error of the daily send, so a failed one is not
/// hidden by the next poll that succeeds.
pub proof fn daily_errors_outlast_polling(
    s: PollerView,
    st: StatusView,
    jobs: Seq<PendingView>,
    event: EventView,
)
    requires
        s.wf(),
        s.expects(event),
    ensures
        poll::next_step(s, st, jobs, event).status.last_daily_error == st.last_daily_error,
{
}

/// A note that could not be written leaves its update unconfirmed: the next
/// getUpdates asks for it again.
pub proof fn unwritten_notes_are_asked_for_again(
    s: PollerView,
    st: StatusView,
    jobs: Seq<PendingView>,
    message: Seq<char>,
)
    requires
        s.wf(),
        s.phase == Phase::WritingText || s.phase == Phase::WritingRefusal,
        nothing_lost(s),
        s.current().update_id is Some,
    ensures
        ({
            let failed = poll::next_step(s, st, jobs, EventView::AppendFailed { message });
            let ended = poll::next_step(failed.poller, failed.status, failed.jobs, EventView::Done);
            &&& failed.poller.offset == s.offset
            &&& ended.action is PersistStatus || ended.action is Rest
            &&& ended.poller.offset == s.offset
            &&& s.current().update_id->0 >= s.offset
        }),
{
    assert(s.batch[s.next - 1] == s.current());
}

/// A download is in the journal before its update is confirmed: the step that
/// asks for it to be queued has journaled it and leaves the offset alone.
pub proof fn downloads_are_journaled_before_they_are_confirmed(
    s: PollerView,
    st: StatusView,
    jobs: Seq<PendingView>,
    event: EventView,
)
    requires
        s.wf(),
        s.expects(event),
    ensures
        ({
            let r = poll::next_step(s, st, jobs, event);
            r.action matches ActionView::Queue { job } ==> {
                &&& r.jobs == jobs.push(job)
                &&& journal::has_job(r.jobs, job.update_id)
                &&& r.poller.offset == s.offset
            }
        }),
{
    let r = poll::next_step(s, st, jobs, event);
    if r.action is Queue {
        assert(r.jobs[jobs.len() as int].update_id == r.action->job.update_id);
    }
}

/// Polling drops no job from the journal.
pub proof fn polling_drops_no_job(
    s: PollerView,
    st: StatusView,
    jobs: Seq<PendingView>,
    event: EventView,
    update_id: i64,
)
    requires
        s.wf(),
        s.expects(event),
        journal::has_job(jobs, update_id),
    ensures
        journal::has_job(poll::next_step(s, st, jobs, event).jobs, update_id),
{
    let r = poll::next_step(s, st, jobs, event);
    let i = choose|i: int| 0 <= i < jobs.len() && (#[trigger] jobs[i]).update_id == update_id;
    assert(r.jobs[i].update_id == update_id);
}

/// No update is queued twice: not when Telegram delivers it again, and not when
/// it was replayed from the journal.
pub proof fn no_update_is_queued_twice(
    s: PollerView,
    st: StatusView,
    jobs: Seq<PendingView>,
    event: EventView,
)
    requires
        s.wf(),
        s.expects(event),
        journal::one_job_each(jobs),
    ensures
        journal::one_job_each(poll::next_step(s, st, jobs, event).jobs),
        poll::next_step(s, st, jobs, event).action matches ActionView::Queue { job }
            ==> !journal::has_job(jobs, job.update_id),
{
    let r = poll::next_step(s, st, jobs, event);
    if r.action is Queue {
        journal::jobs_stay_single(jobs, r.action->job, 0);
    }
}

/// The counter of saved messages grows by one when a text is written, and not
/// otherwise: a file that was refused is not counted.
pub proof fn only_saved_texts_are_counted(
    s: PollerView,
    st: StatusView,
    jobs: Seq<PendingView>,
    event: EventView,
)
    requires
        s.wf(),
        s.expects(event),
        poll::manageable(s, st, event),
    ensures
        poll::next_step(s, st, jobs, event).status.message_count == st.message_count + (if s.phase
            == Phase::WritingText && event is Appended {
            1int
        } else {
            0int
        }),
{
}

/// The words of a conflict, up to the bracket in front of what Telegram says of
/// it.
pub open spec fn conflict_words() -> Seq<char> {
    "conflict: this token is already being polled elsewhere "@
}

/// What is reported of a getUpdates that failed or was refused does not hold the
/// token, unless the library's own words do.
pub proof fn the_token_is_not_reported(
    s: PollerView,
    st: StatusView,
    jobs: Seq<PendingView>,
    event: EventView,
)
    requires
        s.phase == Phase::Polling,
        s.expects(event),
        s.token.len() > 0,
        !redact::can_overlap(s.token, redact::marker()),
        forall|i: int| 0 <= i < s.token.len() ==> #[trigger] s.token[i] != '(' && s.token[i] != ')',
        !redact::contains_text(conflict_words(), s.token),
        st.last_error is Some ==> !redact::contains_text(st.last_error->0, s.token),
    ensures
        poll::next_step(s, st, jobs, event).status.last_error matches Some(e)
            ==> !redact::contains_text(e, s.token),
{
    match event {
        EventView::Unreachable { timed_out, message } => {
            redact::scrubbing_removes_the_token(message, s.token);
        },
        EventView::Reply(PollReplyView::Undecodable) => {
            redact::scrubbing_removes_the_token(api::UNDECODABLE@, s.token);
        },
        EventView::Reply(PollReplyView::Rejected { code, description }) => {
            redact::scrubbing_removes_the_token(description, s.token);
            let shown = redact::scrubbed(description, s.token);
            let words = "conflict: this token is already being polled elsewhere ("@;
            let error = words + shown + ")"@;
            reveal_strlit("conflict: this token is already being polled elsewhere (");
            reveal_strlit("conflict: this token is already being polled elsewhere ");
            reveal_strlit(")");
            assert(words =~= conflict_words() + seq!['(']);
            assert(error =~= (conflict_words() + seq!['('] + shown) + seq![')'] + Seq::<
                char,
            >::empty());
            if redact::contains_text(error, s.token) {
                redact::lemma_contains_split(
                    conflict_words() + seq!['('] + shown,
                    ')',
                    Seq::empty(),
                    s.token,
                );
                redact::lemma_contains_split(conflict_words(), '(', shown, s.token);
            }
        },
        _ => {},
    }
}

/// Whether the offset in the status is the one that the loop started its batch
/// with or, between batches, the one that it polls with.
pub open spec fn offset_recorded(s: PollerView, st: StatusView) -> bool {
    match s.phase {
        Phase::Polling | Phase::Resting | Phase::Settling => st.offset == s.offset,
        _ => st.offset == s.start_offset,
    }
}

/// The offset that Telegram is asked with is the one in the status, so a
/// restart asks for no update again that was confirmed.
pub proof fn polls_use_the_recorded_offset(
    s: PollerView,
    st: StatusView,
    jobs: Seq<PendingView>,
    event: EventView,
)
    requires
        s.wf(),
        s.expects(event),
        offset_recorded(s, st),
    ensures
        ({
            let r = poll::next_step(s, st, jobs, event);
            &&& offset_recorded(r.poller, r.status)
            &&& r.action matches ActionView::Poll { offset } ==> offset == r.status.offset
            &&& r.action is PersistStatus ==> r.status.offset == r.poller.offset
        }),
{
}

// ---- a whole batch ----

/// How many steps are left in a batch, at most.
pub open spec fn steps_left(s: PollerView) -> nat {
    let updates = (s.batch.len() - s.next) as nat;
    match s.phase {
        Phase::Handling => 2 * updates + 1,
        Phase::Queueing | Phase::WritingText | Phase::WritingRefusal => 2 * updates + 2,
        _ => 0,
    }
}

/// What happens while nothing goes wrong: every action is done, every note is
/// written, at the time of day `at`.
pub open spec fn lucky_event(phase: Phase, at: Seq<char>) -> EventView {
    match phase {
        Phase::WritingText | Phase::WritingRefusal => EventView::Appended { at },
        _ => EventView::Done,
    }
}

/// The actions until the end of the batch, and the state then, while nothing
/// goes wrong.
pub open spec fn lucky_run(
    s: PollerView,
    st: StatusView,
    jobs: Seq<PendingView>,
    at: Seq<char>,
) -> (Seq<ActionView>, PollerView)
    decreases steps_left(s),
{
    if !s.wf() || s.phase == Phase::Polling || s.phase == Phase::Resting || s.phase
        == Phase::Settling {
        (Seq::empty(), s)
    } else {
        let r = poll::next_step(s, st, jobs, lucky_event(s.phase, at));
        let rest = lucky_run(r.poller, r.status, r.jobs, at);
        (seq![r.action] + rest.0, rest.1)
    }
}

/// The notes that actions write, in order.
pub open spec fn notes_of(actions: Seq<ActionView>) -> Seq<Seq<char>>
    decreases actions.len(),
{
    if actions.len() == 0 {
        Seq::empty()
    } else {
        (match actions[0] {
            ActionView::Append { note } => seq![note],
            _ => Seq::empty(),
        }) + notes_of(actions.drop_first())
    }
}

/// The downloads that actions queue, in order.
pub open spec fn queued_by(actions: Seq<ActionView>) -> Seq<PendingView>
    decreases actions.len(),
{
    if actions.len() == 0 {
        Seq::empty()
    } else {
        (match actions[0] {
            ActionView::Queue { job } => seq![job],
            _ => Seq::empty(),
        }) + queued_by(actions.drop_first())
    }
}

/// The messages that actions react to, in order.
pub open spec fn reacted_to(actions: Seq<ActionView>) -> Seq<(i64, i64)>
    decreases actions.len(),
{
    if actions.len() == 0 {
        Seq::empty()
    } else {
        (match actions[0] {
            ActionView::React { chat_id, message_id } => seq![(chat_id, message_id)],
            _ => Seq::empty(),
        }) + reacted_to(actions.drop_first())
    }
}

/// The journal after an update was settled.
pub open spec fn jobs_after(
    allowed_user_id: i64,
    capped: bool,
    jobs: Seq<PendingView>,
    u: UpdateView,
) -> Seq<PendingView> {
    if poll::decide(allowed_user_id, capped, jobs, u) is Download {
        jobs.push(poll::job_of(u))
    } else {
        jobs
    }
}

/// The notes that a list of updates asks for: each text of the owner, and a
/// remark on each file that is too large.
pub open spec fn wanted_notes(
    allowed_user_id: i64,
    capped: bool,
    jobs: Seq<PendingView>,
    list: Seq<UpdateView>,
) -> Seq<Seq<char>>
    decreases list.len(),
{
    if list.len() == 0 {
        Seq::empty()
    } else {
        (match poll::decide(allowed_user_id, capped, jobs, list[0]) {
            Decision::Write => seq![list[0].text->0],
            Decision::Refuse => seq![poll::refusal_note(list[0])],
            _ => Seq::empty(),
        }) + wanted_notes(
            allowed_user_id,
            capped,
            jobs_after(allowed_user_id, capped, jobs, list[0]),
            list.drop_first(),
        )
    }
}

/// The downloads that a list of updates asks for.
pub open spec fn wanted_downloads(
    allowed_user_id: i64,
    capped: bool,
    jobs: Seq<PendingView>,
    list: Seq<UpdateView>,
) -> Seq<PendingView>
    decreases list.len(),
{
    if list.len() == 0 {
        Seq::empty()
    } else {
        (match poll::decide(allowed_user_id, capped, jobs, list[0]) {
            Decision::Download => seq![poll::job_of(list[0])],
            _ => Seq::empty(),
        }) + wanted_downloads(
            allowed_user_id,
            capped,
            jobs_after(allowed_user_id, capped, jobs, list[0]),
            list.drop_first(),
        )
    }
}

/// The messages of a list of updates that are confirmed by a reaction: the
/// texts that are written.
pub open spec fn wanted_reactions(
    allowed_user_id: i64,
    capped: bool,
    jobs: Seq<PendingView>,
    list: Seq<UpdateView>,
) -> Seq<(i64, i64)>
    decreases list.len(),
{
    if list.len() == 0 {
        Seq::empty()
    } else {
        (match poll::decide(allowed_user_id, capped, jobs, list[0]) {
            Decision::Write => seq![(list[0].chat_id, list[0].message_id)],
            _ => Seq::empty(),
        }) + wanted_reactions(
            allowed_user_id,
            capped,
            jobs_after(allowed_user_id, capped, jobs, list[0]),
            list.drop_first(),
        )
    }
}

proof fn lemma_actions_cons(a: ActionView, rest: Seq<ActionView>)
    ensures
        notes_of(seq![a] + rest) == (match a {
            ActionView::Append { note } => seq![note],
            _ => Seq::empty(),
        }) + notes_of(rest),
        queued_by(seq![a] + rest) == (match a {
            ActionView::Queue { job } => seq![job],
            _ => Seq::empty(),
        }) + queued_by(rest),
        reacted_to(seq![a] + rest) == (match a {
            ActionView::React { chat_id, message_id } => seq![(chat_id, message_id)],
            _ => Seq::empty(),
        }) + reacted_to(rest),
{
    let all = seq![a] + rest;
    assert(all[0] == a);
    assert(all.drop_first() =~= rest);
}

/// As long as nothing goes wrong, a batch is handled whole and in order: what
/// is written, queued and reacted to is what its updates ask for, no more and
/// no less, and afterwards every one of them is confirmed.
pub proof fn batches_are_handled_whole(
    s: PollerView,
    st: StatusView,
    jobs: Seq<PendingView>,
    at: Seq<char>,
)
    requires
        s.wf(),
        s.phase == Phase::Handling,
        !s.write_failed,
    ensures
        ({
            let (actions, end) = lucky_run(s, st, jobs, at);
            let todo = s.batch.skip(s.next);
            &&& notes_of(actions) == wanted_notes(s.allowed_user_id, s.capped, jobs, todo)
            &&& queued_by(actions) == wanted_downloads(s.allowed_user_id, s.capped, jobs, todo)
            &&& reacted_to(actions) == wanted_reactions(s.allowed_user_id, s.capped, jobs, todo)
            &&& end.offset >= s.offset
            &&& !end.write_failed
            &&& forall|k: int|
                s.next <= k < s.batch.len() && (#[trigger] s.batch[k]).update_id is Some
                    ==> s.batch[k].update_id->0 < end.offset
        }),
    decreases s.batch.len() - s.next,
{
    let todo = s.batch.skip(s.next);
    let r = poll::next_step(s, st, jobs, EventView::Done);
    let (actions, end) = lucky_run(s, st, jobs, at);
    let rest = lucky_run(r.poller, r.status, r.jobs, at);
    assert(actions == seq![r.action] + rest.0);
    lemma_actions_cons(r.action, rest.0);
    if s.next == s.batch.len() {
        assert(todo =~= Seq::empty());
        assert(rest.0 =~= Seq::empty());
        assert(notes_of(actions) =~= Seq::empty());
        assert(queued_by(actions) =~= Seq::empty());
        assert(reacted_to(actions) =~= Seq::empty());
    } else {
        let u = s.batch[s.next];
        assert(poll::id_in_range(u));
        assert(todo[0] == u);
        assert(todo.drop_first() =~= s.batch.skip(s.next + 1));
        if r.poller.phase == Phase::Handling {
            batches_are_handled_whole(r.poller, r.status, r.jobs, at);
            assert(notes_of(actions) =~= notes_of(rest.0));
            assert(queued_by(actions) =~= queued_by(rest.0));
            assert(reacted_to(actions) =~= reacted_to(rest.0));
            assert(wanted_notes(s.allowed_user_id, s.capped, jobs, todo) =~= wanted_notes(
                s.allowed_user_id,
                s.capped,
                jobs,
                todo.drop_first(),
            ));
            assert(wanted_downloads(s.allowed_user_id, s.capped, jobs, todo) =~= wanted_downloads(
                s.allowed_user_id,
                s.capped,
                jobs,
                todo.drop_first(),
            ));
            assert(wanted_reactions(s.allowed_user_id, s.capped, jobs, todo) =~= wanted_reactions(
                s.allowed_user_id,
                s.capped,
                jobs,
                todo.drop_first(),
            ));
        } else {
            assert(r.poller.wf());
            assert(r.poller.current() == u);
            let q = poll::next_step(r.poller, r.status, r.jobs, lucky_event(r.poller.phase, at));
            let last = lucky_run(q.poller, q.status, q.jobs, at);
            assert(rest.0 == seq![q.action] + last.0);
            lemma_actions_cons(q.action, last.0);
            assert(q.poller.wf());
            batches_are_handled_whole(q.poller, q.status, q.jobs, at);
            assert(notes_of(actions) =~= wanted_notes(s.allowed_user_id, s.capped, jobs, todo));
            assert(queued_by(actions) =~= wanted_downloads(
                s.allowed_user_id,
                s.capped,
                jobs,
                todo,
            ));
            assert(reacted_to(actions) =~= wanted_reactions(
                s.allowed_user_id,
                s.capped,
                jobs,
                todo,
            ));
        }
        assert forall|k: int|
            s.next <= k < s.batch.len() && (
            #[trigger] s.batch[k]).update_id is Some implies s.batch[k].update_id->0
            < end.offset by {
            if k > s.next {
                assert(r.poller.batch[k] == s.batch[k]);
            }
        }
    }
}

/// Where the owner sends nothing but texts, those are the notes, in the order
/// in which they were sent.
pub proof fn texts_become_notes(
    allowed_user_id: i64,
    capped: bool,
    jobs: Seq<PendingView>,
    list: Seq<UpdateView>,
)
    requires
        forall|i: int|
            0 <= i < list.len() ==> (#[trigger] list[i]).text is Some && list[i].attachment is None
                && (allowed_user_id == 0 || list[i].from_id == allowed_user_id),
    ensures
        wanted_notes(allowed_user_id, capped, jobs, list) == list.map_values(
            |u: UpdateView| u.text->0,
        ),
    decreases list.len(),
{
    let texts = list.map_values(|u: UpdateView| u.text->0);
    if list.len() == 0 {
        assert(texts =~= Seq::empty());
    } else {
        let rest = list.drop_first();
        assert forall|i: int| 0 <= i < rest.len() implies (#[trigger] rest[i]).text is Some
            && rest[i].attachment is None && (allowed_user_id == 0 || rest[i].from_id
            == allowed_user_id) by {
            assert(rest[i] == list[i + 1]);
        }
        texts_become_notes(allowed_user_id, capped, jobs, rest);
        assert(list[0].text is Some);
        assert(texts =~= seq![list[0].text->0] + rest.map_values(|u: UpdateView| u.text->0));
    }
}

} // verus!
