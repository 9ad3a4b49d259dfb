//! The daily send-back of the markdown file.
//!
//! Rather than sleeping for the whole interval (which a laptop sleep or a clock
//! change would throw off), the loop wakes every 30 seconds, checks the wall
//! clock, and fires once per calendar day when the scheduled minute has
//! arrived. If the bot starts after today's send time, today is treated as
//! already done so there's no surprise catch-up send on launch.

use vstd::prelude::*;
use vstd::string::*;
use crate::chunk;
use crate::clock;
use crate::clock::Day;
use crate::clock::LocalTime;
use crate::status::BotStatus;
use crate::status::StatusView;
use crate::text;

verus! {

/// How long the loop sleeps between two looks at the clock, in seconds.
pub const WAKE_SECS: u64 = 30;

/// What the loop is waiting for.
#[derive(Clone, Copy, PartialEq, Eq, Structural, Debug)]
pub enum Phase {
    /// The next look at the clock.
    Waiting,
    /// The contents of the file.
    Reading,
    /// Telegram's reply to a message.
    Sending,
}

/// What happened.
#[derive(Debug, PartialEq, Eq)]
pub enum Event {
    /// The loop woke at the moment `now`.
    Tick { now: LocalTime },
    /// The file was read.
    Content { content: String },
    /// The file could not be read.
    Unreadable { message: String },
    /// Whether Telegram accepted the message.
    Sent { accepted: bool },
}

/// What an [`Event`] says.
pub enum EventView {
    Tick { now: LocalTime },
    Content { content: Seq<char> },
    Unreadable { message: Seq<char> },
    Sent { accepted: bool },
}

impl View for Event {
    type V = EventView;

    open spec fn view(&self) -> EventView {
        match *self {
            Event::Tick { now } => EventView::Tick { now },
            Event::Content { content } => EventView::Content { content: content@ },
            Event::Unreadable { message } => EventView::Unreadable { message: message@ },
            Event::Sent { accepted } => EventView::Sent { accepted },
        }
    }
}

/// What is to be done.
#[derive(Debug, PartialEq, Eq)]
pub enum Action {
    /// Sleep until the next look at the clock, or end if the bot is stopped.
    Wait,
    /// Read the markdown file.
    Read,
    /// Send a message to the owner, and see whether it is accepted.
    Send { message: String },
}

/// What an [`Action`] says.
pub enum ActionView {
    Wait,
    Read,
    Send { message: Seq<char> },
}

impl View for Action {
    type V = ActionView;

    open spec fn view(&self) -> ActionView {
        match *self {
            Action::Wait => ActionView::Wait,
            Action::Read => ActionView::Read,
            Action::Send { message } => ActionView::Send { message: message@ },
        }
    }
}

/// The state of the daily send-back of one bot.
pub struct Daily {
    hour: u32,
    minute: u32,
    last_sent: Option<Day>,
    chunks: Vec<String>,
    next: usize,
    phase: Phase,
}

/// What a [`Daily`] holds.
#[verifier::ext_equal]
pub struct DailyView {
    /// The time of day to send at.
    pub hour: u32,
    pub minute: u32,
    /// The last day that needs no send any more.
    pub last_sent: Option<Day>,
    /// The messages of today's send.
    pub chunks: Seq<Seq<char>>,
    /// How many of them were handed out.
    pub next: int,
    pub phase: Phase,
}

impl View for Daily {
    type V = DailyView;

    closed spec fn view(&self) -> DailyView {
        DailyView {
            hour: self.hour,
            minute: self.minute,
            last_sent: self.last_sent,
            chunks: text::texts(self.chunks@),
            next: self.next as int,
            phase: self.phase,
        }
    }
}

/// Whether the time of day has come.
pub open spec fn is_due(hour: u32, minute: u32, now: LocalTime) -> bool {
    now.hour > hour || (now.hour == hour && now.minute >= minute)
}

/// A loop that starts at the moment `now`.
pub open spec fn started(time: Seq<char>, now: LocalTime) -> DailyView {
    let (hour, minute) = clock::hhmm(time);
    DailyView {
        hour: hour as u32,
        minute: minute as u32,
        last_sent: if is_due(hour as u32, minute as u32, now) {
            Some(now.day_of())
        } else {
            None
        },
        chunks: Seq::empty(),
        next: 0,
        phase: Phase::Waiting,
    }
}

/// Whether a daily send is configured: it needs a chat to send to, and in a
/// private chat the owner's user id is also the chat id.
pub open spec fn active(daily_send: bool, allowed_user_id: i64) -> bool {
    daily_send && allowed_user_id != 0
}

/// Whether a daily send is configured.
pub fn is_active(daily_send: bool, allowed_user_id: i64) -> (r: bool)
    ensures
        r == active(daily_send, allowed_user_id),
{
    daily_send && allowed_user_id != 0
}

// ---- steps ----

impl DailyView {
    pub open spec fn wf(self) -> bool {
        0 <= self.next <= self.chunks.len()
    }

    /// Whether `event` can happen now.
    pub open spec fn expects(self, event: EventView) -> bool {
        match self.phase {
            Phase::Waiting => event is Tick,
            Phase::Reading => event is Content || event is Unreadable,
            Phase::Sending => event is Sent,
        }
    }

    pub open spec fn at(self, phase: Phase) -> DailyView {
        DailyView { phase, ..self }
    }
}

/// What a step leads to.
pub struct Step {
    pub daily: DailyView,
    pub status: StatusView,
    pub action: ActionView,
}

/// The end of a day's send, with the error that it left.
pub open spec fn over(d: DailyView, st: StatusView, error: Option<Seq<char>>) -> Step {
    Step {
        daily: d.at(Phase::Waiting),
        status: StatusView { last_daily_error: error, ..st },
        action: ActionView::Wait,
    }
}

/// Sends the next message, if there is one left.
pub open spec fn send_next(d: DailyView, st: StatusView) -> Step {
    if d.next < d.chunks.len() {
        Step {
            daily: DailyView { next: d.next + 1, phase: Phase::Sending, ..d },
            status: st,
            action: ActionView::Send { message: d.chunks[d.next] },
        }
    } else {
        over(d, st, None)
    }
}

/// What an event leads to.
pub open spec fn next_step(d: DailyView, st: StatusView, event: EventView) -> Step {
    match event {
        EventView::Tick { now } => if d.last_sent == Some(now.day_of()) || !is_due(
            d.hour,
            d.minute,
            now,
        ) {
            Step { daily: d, status: st, action: ActionView::Wait }
        } else {
            Step {
                daily: DailyView { last_sent: Some(now.day_of()), phase: Phase::Reading, ..d },
                status: st,
                action: ActionView::Read,
            }
        },
        EventView::Content { content } => if text::trimmed(content).len() == 0 {
            over(d, st, None)
        } else {
            send_next(DailyView { chunks: chunk::chunks(content), next: 0, ..d }, st)
        },
        EventView::Unreadable { message } => over(
            d,
            st,
            Some("daily send: cannot read file: "@ + message),
        ),
        EventView::Sent { accepted } => if accepted {
            send_next(d, st)
        } else {
            over(d, st, Some("daily send failed (Telegram rejected message)"@))
        },
    }
}

fn time_has_come(hour: u32, minute: u32, now: &LocalTime) -> (r: bool)
    ensures
        r == is_due(hour, minute, *now),
{
    now.hour > hour || (now.hour == hour && now.minute >= minute)
}

fn same_day(last: &Option<Day>, today: &Day) -> (r: bool)
    ensures
        r == (*last == Some(*today)),
{
    match last {
        Some(d) => *d == *today,
        None => false,
    }
}

impl Daily {
    /// The loop of a bot whose file is sent at `time`, "HH:MM", starting at the
    /// moment `now`. It starts by waiting.
    pub fn new(time: &str, now: &LocalTime) -> (r: Daily)
        ensures
            r@.wf(),
            r@ == started(time@, *now),
    {
        let (hour, minute): (u32, u32) = clock::parse_hhmm(time);
        let last_sent = if time_has_come(hour, minute, now) {
            Some(now.date())
        } else {
            None
        };
        let r = Daily {
            hour,
            minute,
            last_sent,
            chunks: Vec::new(),
            next: 0,
            phase: Phase::Waiting,
        };
        proof {
            assert(r@.chunks =~= Seq::empty());
        }
        r
    }

    fn hand_out(&mut self, status: &mut BotStatus) -> (r: Action)
        requires
            old(self)@.wf(),
        ensures
            send_next(old(self)@, old(status)@) == (Step {
                daily: final(self)@,
                status: final(status)@,
                action: r@,
            }),
            final(self)@.wf(),
    {
        if self.next < self.chunks.len() {
            let message = self.chunks[self.next].clone();
            proof {
                assert(self@.chunks[self@.next] == self.chunks@[self.next as int]@);
            }
            self.next = self.next + 1;
            self.phase = Phase::Sending;
            Action::Send { message }
        } else {
            status.clear_daily_error();
            self.phase = Phase::Waiting;
            Action::Wait
        }
    }

    /// Takes in what happened, and tells what to do next.
    pub fn step(&mut self, event: Event, status: &mut BotStatus) -> (r: Action)
        requires
            old(self)@.wf(),
            old(self)@.expects(event@),
        ensures
            next_step(old(self)@, old(status)@, event@) == (Step {
                daily: final(self)@,
                status: final(status)@,
                action: r@,
            }),
            final(self)@.wf(),
    {
        match event {
            Event::Tick { now } => {
                let today = now.date();
                if same_day(&self.last_sent, &today) || !time_has_come(
                    self.hour,
                    self.minute,
                    &now,
                ) {
                    Action::Wait
                } else {
                    // Mark before sending so a failure can't spin-resend in a tight
                    // loop; it'll simply try again tomorrow.
                    self.last_sent = Some(today);
                    self.phase = Phase::Reading;
                    Action::Read
                }
            },
            Event::Content { content } => {
                if text::is_blank(content.as_str()) {
                    // An empty file isn't a failure: today's send is a no-op, so
                    // clear any stale error from a previous day.
                    status.clear_daily_error();
                    self.phase = Phase::Waiting;
                    Action::Wait
                } else {
                    self.chunks = chunk::chunk_text(content.as_str());
                    self.next = 0;
                    self.hand_out(status)
                }
            },
            Event::Unreadable { message } => {
                let mut error = "daily send: cannot read file: ".to_owned();
                error.append(message.as_str());
                status.last_daily_error = Some(error);
                self.phase = Phase::Waiting;
                Action::Wait
            },
            Event::Sent { accepted } => {
                if accepted {
                    self.hand_out(status)
                } else {
                    status.last_daily_error = Some(
                        "daily send failed (Telegram rejected message)".to_owned(),
                    );
                    self.phase = Phase::Waiting;
                    Action::Wait
                }
            },
        }
    }
}

// ---- what the daily send promises ----

/// How many sends a run of events begins.
pub open spec fn sends_begun(d: DailyView, st: StatusView, events: Seq<EventView>) -> nat
    decreases events.len(),
{
    if events.len() == 0 {
        0
    } else {
        let r = next_step(d, st, events[0]);
        let first: nat = if r.action is Read {
            1
        } else {
            0
        };
        first + sends_begun(r.daily, r.status, events.drop_first())
    }
}

/// The file is sent once a day at most: however often the loop looks at the
/// clock on one day, and whatever becomes of a send, no second one begins. On
/// the day that is marked already, none does.
pub proof fn at_most_one_send_a_day(
    d: DailyView,
    st: StatusView,
    events: Seq<EventView>,
    today: Day,
)
    requires
        forall|i: int|
            0 <= i < events.len() ==> (#[trigger] events[i] matches EventView::Tick { now }
                ==> now.day_of() == today),
    ensures
        sends_begun(d, st, events) <= 1,
        d.last_sent == Some(today) ==> sends_begun(d, st, events) == 0,
    decreases events.len(),
{
    if events.len() > 0 {
        let r = next_step(d, st, events[0]);
        let rest = events.drop_first();
        assert forall|i: int| 0 <= i < rest.len() implies (#[trigger] rest[i] matches EventView::Tick {
            now,
        } ==> now.day_of() == today) by {
            assert(rest[i] == events[i + 1]);
        }
        at_most_one_send_a_day(r.daily, r.status, rest, today);
    }
}

/// Nothing but a look at the clock changes which days need no send any more.
pub proof fn days_are_marked_by_the_clock(d: DailyView, st: StatusView, event: EventView)
    requires
        d.wf(),
        d.expects(event),
        !(event is Tick),
    ensures
        next_step(d, st, event).daily.last_sent == d.last_sent,
        next_step(d, st, event).daily.hour == d.hour,
        next_step(d, st, event).daily.minute == d.minute,
{
}

/// A bot that starts after today's time sends nothing today.
pub proof fn no_catch_up_on_launch(
    time: Seq<char>,
    now: LocalTime,
    st: StatusView,
    later: LocalTime,
)
    requires
        ({
            let (hour, minute) = clock::hhmm(time);
            is_due(hour as u32, minute as u32, now)
        }),
        later.day_of() == now.day_of(),
    ensures
        next_step(started(time, now), st, EventView::Tick { now: later }) == (Step {
            daily: started(time, now),
            status: st,
            action: ActionView::Wait,
        }),
{
}

/// On a day that had no send yet the send begins when the time has come, and
/// not before.
pub proof fn sends_begin_when_due(d: DailyView, st: StatusView, now: LocalTime)
    requires
        d.wf(),
        d.phase == Phase::Waiting,
        d.last_sent != Some(now.day_of()),
    ensures
        next_step(d, st, EventView::Tick { now }).action is Read <==> is_due(
            d.hour,
            d.minute,
            now,
        ),
{
}

/// A blank file is no failure: nothing is sent, and an old error is forgotten.
pub proof fn blank_files_send_nothing(d: DailyView, st: StatusView, content: Seq<char>)
    requires
        d.phase == Phase::Reading,
        text::trimmed(content).len() == 0,
    ensures
        ({
            let r = next_step(d, st, EventView::Content { content });
            r.action == ActionView::Wait && r.status.last_daily_error is None
        }),
{
}

/// The messages that are sent from now on while Telegram accepts each, and the
/// error that is left then.
pub open spec fn lucky_sends(d: DailyView, st: StatusView) -> (Seq<Seq<char>>, Option<Seq<char>>)
    decreases d.chunks.len() - d.next,
{
    if d.phase != Phase::Sending || !d.wf() {
        (Seq::empty(), st.last_daily_error)
    } else {
        let r = next_step(d, st, EventView::Sent { accepted: true });
        match r.action {
            ActionView::Send { message } => {
                let rest = lucky_sends(r.daily, r.status);
                (seq![message] + rest.0, rest.1)
            },
            _ => (Seq::empty(), r.status.last_daily_error),
        }
    }
}

proof fn lemma_lucky_sends(d: DailyView, st: StatusView)
    requires
        d.wf(),
        d.phase == Phase::Sending,
    ensures
        lucky_sends(d, st).0 == d.chunks.skip(d.next),
        lucky_sends(d, st).1 is None,
    decreases d.chunks.len() - d.next,
{
    let r = next_step(d, st, EventView::Sent { accepted: true });
    if d.next < d.chunks.len() {
        lemma_lucky_sends(r.daily, r.status);
        assert(seq![d.chunks[d.next]] + d.chunks.skip(d.next + 1) =~= d.chunks.skip(d.next));
    } else {
        assert(d.chunks.skip(d.next) =~= Seq::empty());
    }
}

/// As long as Telegram accepts the messages, what is sent is the file's exact
/// contents, no message is over Telegram's limit, and no error is left.
pub proof fn the_exact_contents_are_sent(d: DailyView, st: StatusView, content: Seq<char>)
    requires
        d.phase == Phase::Reading,
        text::trimmed(content).len() > 0,
    ensures
        ({
            let r = next_step(d, st, EventView::Content { content });
            let rest = lucky_sends(r.daily, r.status);
            &&& r.action matches ActionView::Send { message } && {
                let sent = seq![message] + rest.0;
                &&& sent.flatten() == content
                &&& sent == chunk::chunks(content)
                &&& forall|i: int|
                    0 <= i < sent.len() ==> chunk::utf16_len(#[trigger] sent[i])
                        <= chunk::TELEGRAM_UTF16_CAP
            }
            &&& rest.1 is None
        }),
{
    let all = chunk::chunks(content);
    chunk::chunks_reproduce_the_text(content);
    chunk::chunks_fit_a_message(content);
    assert(content.len() > 0);
    assert(all.len() > 0);
    let r = next_step(d, st, EventView::Content { content });
    lemma_lucky_sends(r.daily, r.status);
    assert(seq![all[0]] + all.skip(1) =~= all);
}

/// A message that Telegram rejects ends the send and leaves an error.
pub proof fn rejected_messages_end_the_send(d: DailyView, st: StatusView)
    requires
        d.wf(),
        d.phase == Phase::Sending,
    ensures
        ({
            let r = next_step(d, st, EventView::Sent { accepted: false });
            r.action == ActionView::Wait && r.status.last_daily_error is Some
                && r.status.last_error == st.last_error
        }),
{
}

/// The daily send touches nothing of the status but its own error.
pub proof fn only_the_daily_error_changes(d: DailyView, st: StatusView, event: EventView)
    requires
        d.wf(),
        d.expects(event),
    ensures
        ({
            let after = next_step(d, st, event).status;
            after == (StatusView { last_daily_error: after.last_daily_error, ..st })
        }),
{
}

} // verus!
