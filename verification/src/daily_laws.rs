//! When the daily send comes, and what it says.

use vstd::prelude::*;
use crate::clock;
use crate::clock::LocalTime;
use crate::daily;
use crate::daily::ActionView;
use crate::daily::DailyView;
use crate::daily::EventView;
use crate::daily::Phase;
use crate::status::StatusView;

verus! {

/// The time has come exactly when the day is at least as far as the time is.
pub proof fn the_time_comes_by_the_minute(hour: u32, minute: u32, now: LocalTime)
    requires
        minute < 60,
        now.minute < 60,
    ensures
        daily::is_due(hour, minute, now) <==> 60 * now.hour + now.minute >= 60 * hour + minute,
{
}

/// Once the time has come it stays so for the rest of the day: for every later
/// moment of it, whatever its minute.
pub proof fn the_time_does_not_go_again(
    hour: u32,
    minute: u32,
    now: LocalTime,
    later: LocalTime,
)
    requires
        minute < 60,
        now.minute < 60,
        later.minute < 60,
        60 * later.hour + later.minute >= 60 * now.hour + now.minute,
        daily::is_due(hour, minute, now),
    ensures
        daily::is_due(hour, minute, later),
{
}

/// A look at the clock starts the day's send exactly when it was not made yet
/// and the time has come; else nothing changes.
pub proof fn the_send_starts_at_the_minute(d: DailyView, st: StatusView, now: LocalTime)
    requires
        d.wf(),
        d.phase == Phase::Waiting,
        d.minute < 60,
        now.minute < 60,
    ensures
        ({
            let r = daily::next_step(d, st, EventView::Tick { now });
            let done = d.last_sent is Some && d.last_sent->0.year == now.year
                && d.last_sent->0.month == now.month && d.last_sent->0.day == now.day;
            let come = 60 * now.hour + now.minute >= 60 * d.hour + d.minute;
            &&& !done && come ==> {
                &&& r.action == ActionView::Read
                &&& r.daily.phase == Phase::Reading
                &&& r.daily.last_sent is Some
                &&& r.daily.last_sent->0.year == now.year
                &&& r.daily.last_sent->0.month == now.month
                &&& r.daily.last_sent->0.day == now.day
                &&& r.daily.hour == d.hour
                &&& r.daily.minute == d.minute
            }
            &&& done || !come ==> r.action == ActionView::Wait && r.daily == d
            &&& r.status == st
        }),
{
}

/// A bot that starts once the time has come is done for the day; one that
/// starts before is not. It goes by the configured time.
pub proof fn a_late_start_is_done_for_the_day(time: Seq<char>, now: LocalTime)
    requires
        now.minute < 60,
    ensures
        ({
            let d = daily::started(time, now);
            let (hour, minute) = clock::hhmm(time);
            &&& d.wf()
            &&& d.phase == Phase::Waiting
            &&& d.hour == hour
            &&& d.minute == minute
            &&& d.hour <= 23
            &&& d.minute <= 59
            &&& 60 * now.hour + now.minute >= 60 * hour + minute ==> d.last_sent is Some
                && d.last_sent->0.year == now.year && d.last_sent->0.month == now.month
                && d.last_sent->0.day == now.day
            &&& 60 * now.hour + now.minute < 60 * hour + minute ==> d.last_sent is None
        }),
{
}

/// A send is configured exactly for a bot that wants one and has an owner.
pub proof fn a_send_needs_an_owner(daily_send: bool, allowed_user_id: i64)
    ensures
        daily::active(daily_send, allowed_user_id) <==> daily_send && allowed_user_id != 0,
{
}

/// What a send that failed leaves in the status, which changes in nothing else.
pub proof fn failed_sends_are_reported(d: DailyView, st: StatusView, message: Seq<char>)
    requires
        d.wf(),
    ensures
        d.phase == Phase::Reading ==> {
            let r = daily::next_step(d, st, EventView::Unreadable { message });
            &&& r.action == ActionView::Wait
            &&& r.daily.phase == Phase::Waiting
            &&& r.daily.last_sent == d.last_sent
            &&& r.status.last_daily_error == Some("daily send: cannot read file: "@ + message)
            &&& r.status == (StatusView { last_daily_error: r.status.last_daily_error, ..st })
        },
        d.phase == Phase::Sending ==> {
            let r = daily::next_step(d, st, EventView::Sent { accepted: false });
            &&& r.action == ActionView::Wait
            &&& r.daily.phase == Phase::Waiting
            &&& r.daily.last_sent == d.last_sent
            &&& r.status.last_daily_error == Some("daily send failed (Telegram rejected message)"@)
            &&& r.status == (StatusView { last_daily_error: r.status.last_daily_error, ..st })
        },
{
}

/// While messages are left the next one follows the one that was accepted.
/// After the last one the error of the day is cleared.
pub proof fn messages_follow_one_another(d: DailyView, st: StatusView)
    requires
        d.wf(),
        d.phase == Phase::Sending,
    ensures
        ({
            let r = daily::next_step(d, st, EventView::Sent { accepted: true });
            &&& d.next < d.chunks.len() ==> {
                &&& r.action == ActionView::Send { message: d.chunks[d.next] }
                &&& r.daily.next == d.next + 1
                &&& r.daily.chunks == d.chunks
                &&& r.daily.phase == Phase::Sending
                &&& r.status == st
            }
            &&& d.next == d.chunks.len() ==> {
                &&& r.action == ActionView::Wait
                &&& r.daily.phase == Phase::Waiting
                &&& r.status.last_daily_error is None
                &&& r.status == (StatusView { last_daily_error: None, ..st })
            }
            &&& r.daily.last_sent == d.last_sent
            &&& r.daily.hour == d.hour
            &&& r.daily.minute == d.minute
        }),
{
}

} // verus!
