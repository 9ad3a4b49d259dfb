use notekeeper::clock::LocalTime;
use notekeeper::daily;
use notekeeper::daily::Action;
use notekeeper::daily::Daily;
use notekeeper::daily::Event;
use notekeeper::status::BotStatus;

fn on(day: u32, hour: u32, minute: u32) -> LocalTime {
    LocalTime { year: 2026, month: 6, day, hour, minute, second: 0 }
}

fn tick(now: LocalTime) -> Event {
    Event::Tick { now }
}

#[test]
fn the_file_is_sent_once_when_the_time_comes() {
    let mut st = BotStatus::default();
    let mut d = Daily::new("08:00", &on(1, 7, 0));
    assert_eq!(d.step(tick(on(1, 7, 59)), &mut st), Action::Wait);
    assert_eq!(d.step(tick(on(1, 8, 0)), &mut st), Action::Read);
    assert_eq!(
        d.step(Event::Content { content: "note\n".to_string() }, &mut st),
        Action::Send { message: "note\n".to_string() }
    );
    assert_eq!(d.step(Event::Sent { accepted: true }, &mut st), Action::Wait);
    assert_eq!(st.last_daily_error, None);
    assert_eq!(d.step(tick(on(1, 8, 1)), &mut st), Action::Wait);
    assert_eq!(d.step(tick(on(1, 23, 59)), &mut st), Action::Wait);
    assert_eq!(d.step(tick(on(2, 0, 0)), &mut st), Action::Wait);
    assert_eq!(d.step(tick(on(2, 9, 30)), &mut st), Action::Read);
}

#[test]
fn a_late_start_sends_nothing_that_day() {
    let mut st = BotStatus::default();
    let mut d = Daily::new("08:00", &on(1, 8, 0));
    assert_eq!(d.step(tick(on(1, 12, 0)), &mut st), Action::Wait);
    assert_eq!(d.step(tick(on(2, 8, 0)), &mut st), Action::Read);
}

#[test]
fn a_failure_waits_for_the_next_day() {
    let mut st = BotStatus::default();
    let mut d = Daily::new("06:30", &on(1, 0, 0));
    d.step(tick(on(1, 6, 30)), &mut st);
    assert_eq!(d.step(Event::Unreadable { message: "No such file".to_string() }, &mut st), Action::Wait);
    assert_eq!(
        st.last_daily_error,
        Some("daily send: cannot read file: No such file".to_string())
    );
    assert_eq!(d.step(tick(on(1, 6, 31)), &mut st), Action::Wait);
    assert_eq!(d.step(tick(on(2, 6, 30)), &mut st), Action::Read);
    d.step(Event::Content { content: "x".to_string() }, &mut st);
    assert_eq!(d.step(Event::Sent { accepted: false }, &mut st), Action::Wait);
    assert_eq!(
        st.last_daily_error,
        Some("daily send failed (Telegram rejected message)".to_string())
    );
    assert_eq!(st.last_error, None);
}

#[test]
fn a_blank_file_is_no_failure() {
    let mut st = BotStatus::default();
    st.last_daily_error = Some("old".to_string());
    let mut d = Daily::new("06:30", &on(1, 0, 0));
    d.step(tick(on(1, 7, 0)), &mut st);
    assert_eq!(d.step(Event::Content { content: " \n\n".to_string() }, &mut st), Action::Wait);
    assert_eq!(st.last_daily_error, None);
}

#[test]
fn a_long_file_is_sent_in_order_and_whole() {
    let mut st = BotStatus::default();
    let mut d = Daily::new("", &on(1, 0, 0));
    d.step(tick(on(1, 8, 0)), &mut st);
    let content = "0123456789\n".repeat(1000);
    let mut action = d.step(Event::Content { content: content.clone() }, &mut st);
    let mut sent = String::new();
    let mut messages = 0;
    while let Action::Send { message } = action {
        assert!(message.len() <= 4000);
        sent.push_str(&message);
        messages += 1;
        action = d.step(Event::Sent { accepted: true }, &mut st);
    }
    assert_eq!(action, Action::Wait);
    assert_eq!(messages, 3);
    assert_eq!(sent, content);
}

#[test]
fn a_rejected_part_ends_the_send() {
    let mut st = BotStatus::default();
    let mut d = Daily::new("8:00", &on(1, 0, 0));
    d.step(tick(on(1, 8, 0)), &mut st);
    d.step(Event::Content { content: "0123456789\n".repeat(1000) }, &mut st);
    d.step(Event::Sent { accepted: true }, &mut st);
    assert_eq!(d.step(Event::Sent { accepted: false }, &mut st), Action::Wait);
    assert!(st.last_daily_error.is_some());
}

#[test]
fn a_daily_send_needs_an_owner() {
    assert!(daily::is_active(true, 7));
    assert!(!daily::is_active(true, 0));
    assert!(!daily::is_active(false, 7));
}
