use notekeeper::api::Attachment;
use notekeeper::api::PollReply;
use notekeeper::api::Update;
use notekeeper::journal::Journal;
use notekeeper::journal::PendingDownload;
use notekeeper::poll::Action;
use notekeeper::poll::Event;
use notekeeper::poll::Poller;
use notekeeper::status::BotStatus;

const PUBLIC: &str = "https://api.telegram.org";
const LOCAL: &str = "http://127.0.0.1:8081";

fn update(id: i64, from: i64) -> Update {
    Update {
        update_id: Some(id),
        from_id: from,
        chat_id: from,
        message_id: id + 100,
        caption: String::new(),
        attachment: None,
        text: None,
    }
}

fn text(id: i64, from: i64, t: &str) -> Update {
    Update { text: Some(t.to_string()), ..update(id, from) }
}

fn file(id: i64, from: i64, name: Option<&str>, size: i64, caption: &str) -> Update {
    Update {
        caption: caption.to_string(),
        attachment: Some(Attachment {
            file_id: format!("F{}", id),
            file_name: name.map(|n| n.to_string()),
            file_size: size,
        }),
        ..update(id, from)
    }
}

fn accepted(list: Vec<Update>) -> Event {
    Event::Reply(PollReply::Accepted(Some(list)))
}

fn at() -> Event {
    Event::Appended { at: "14:30".to_string() }
}

fn fresh() -> (BotStatus, Journal) {
    (BotStatus::default(), Journal::from_jobs(Vec::new()))
}

#[test]
fn a_text_is_written_confirmed_and_reacted_to() {
    let (mut st, mut j) = fresh();
    let mut p = Poller::new(PUBLIC, "t", 7, 5);
    assert_eq!(p.step(accepted(vec![text(9, 7, "hello")]), &mut st, &mut j), Action::Next);
    assert!(st.running);
    assert_eq!(
        p.step(Event::Done, &mut st, &mut j),
        Action::Append { note: "hello".to_string() }
    );
    assert_eq!(p.offset(), 5);
    assert_eq!(p.step(at(), &mut st, &mut j), Action::React { chat_id: 7, message_id: 109 });
    assert_eq!(p.offset(), 10);
    assert_eq!(st.message_count, 1);
    assert_eq!(st.last_message_at, Some("14:30".to_string()));
    assert_eq!(st.offset, 0);
    assert_eq!(p.step(Event::Done, &mut st, &mut j), Action::PersistStatus);
    assert_eq!(st.offset, 10);
    assert_eq!(p.step(Event::Done, &mut st, &mut j), Action::Poll { offset: 10 });
}

#[test]
fn strangers_are_ignored_but_confirmed() {
    let (mut st, mut j) = fresh();
    let mut p = Poller::new(PUBLIC, "t", 7, 0);
    p.step(
        accepted(vec![text(1, 8, "spam"), file(2, 0, None, 1, ""), text(3, 7, "mine")]),
        &mut st,
        &mut j,
    );
    assert_eq!(p.step(Event::Done, &mut st, &mut j), Action::Next);
    assert_eq!(p.offset(), 2);
    assert_eq!(p.step(Event::Done, &mut st, &mut j), Action::Next);
    assert_eq!(p.offset(), 3);
    assert!(j.is_empty());
    assert_eq!(p.step(Event::Done, &mut st, &mut j), Action::Append { note: "mine".to_string() });
}

#[test]
fn without_an_owner_anyone_writes() {
    let (mut st, mut j) = fresh();
    let mut p = Poller::new(PUBLIC, "t", 0, 0);
    p.step(accepted(vec![text(1, 8, "hi")]), &mut st, &mut j);
    assert_eq!(p.step(Event::Done, &mut st, &mut j), Action::Append { note: "hi".to_string() });
}

#[test]
fn a_file_is_journaled_before_it_is_confirmed() {
    let (mut st, mut j) = fresh();
    let mut p = Poller::new(PUBLIC, "t", 7, 0);
    p.step(accepted(vec![file(4, 7, Some("a.pdf"), 10, "cap")]), &mut st, &mut j);
    let job = PendingDownload {
        update_id: 4,
        file_id: "F4".to_string(),
        file_name: Some("a.pdf".to_string()),
        caption: "cap".to_string(),
        chat_id: 7,
        message_id: 104,
    };
    assert_eq!(p.step(Event::Done, &mut st, &mut j), Action::Queue { job: job.clone() });
    assert!(j.has(4));
    assert_eq!(j.jobs(), vec![job]);
    assert_eq!(p.offset(), 0);
    assert_eq!(p.step(Event::Done, &mut st, &mut j), Action::Next);
    assert_eq!(p.offset(), 5);
    assert_eq!(st.message_count, 0);
}

#[test]
fn a_file_is_not_queued_twice() {
    let (mut st, mut j) = fresh();
    let mut p = Poller::new(PUBLIC, "t", 7, 0);
    p.step(accepted(vec![file(4, 7, None, 10, ""), file(4, 7, None, 10, "")]), &mut st, &mut j);
    p.step(Event::Done, &mut st, &mut j);
    p.step(Event::Done, &mut st, &mut j);
    assert_eq!(p.step(Event::Done, &mut st, &mut j), Action::Next);
    assert_eq!(j.jobs().len(), 1);
}

#[test]
fn files_over_the_limit_are_refused() {
    let (mut st, mut j) = fresh();
    let mut p = Poller::new(PUBLIC, "t", 7, 0);
    p.step(accepted(vec![file(4, 7, Some("v.mp4"), 20_000_001, "trip")]), &mut st, &mut j);
    assert_eq!(
        p.step(Event::Done, &mut st, &mut j),
        Action::Append {
            note: "could not save file: v.mp4 is 20.0 MB \u{2014} over the 20 MB Bot API limit; enable the local server to receive it \u{2014} trip".to_string()
        }
    );
    assert_eq!(
        p.step(at(), &mut st, &mut j),
        Action::Send {
            chat_id: 7,
            message: "\u{26a0}\u{fe0f} v.mp4 (20.0 MB) is over the 20 MB limit and was not saved.".to_string()
        }
    );
    assert_eq!(p.offset(), 5);
    assert_eq!(st.message_count, 0);
    assert_eq!(st.last_message_at, Some("14:30".to_string()));
    assert!(j.is_empty());
}

#[test]
fn the_limit_is_decimal_and_public() {
    let (mut st, mut j) = fresh();
    let mut p = Poller::new(PUBLIC, "t", 7, 0);
    p.step(accepted(vec![file(4, 7, None, 20_000_000, "")]), &mut st, &mut j);
    assert!(matches!(p.step(Event::Done, &mut st, &mut j), Action::Queue { .. }));
    let (mut st, mut j) = fresh();
    let mut p = Poller::new(LOCAL, "t", 7, 0);
    p.step(accepted(vec![file(4, 7, None, 2_000_000_000, "")]), &mut st, &mut j);
    assert!(matches!(p.step(Event::Done, &mut st, &mut j), Action::Queue { .. }));
    let (mut st, mut j) = fresh();
    let mut p = Poller::new(PUBLIC, "t", 7, 0);
    p.step(accepted(vec![file(4, 7, None, 30_000_000, "")]), &mut st, &mut j);
    assert_eq!(
        p.step(Event::Done, &mut st, &mut j),
        Action::Append {
            note: "could not save file: file is 30.0 MB \u{2014} over the 20 MB Bot API limit; enable the local server to receive it".to_string()
        }
    );
}

#[test]
fn a_failed_write_is_not_confirmed() {
    let (mut st, mut j) = fresh();
    let mut p = Poller::new(PUBLIC, "t", 7, 0);
    p.step(
        accepted(vec![text(1, 7, "one"), text(2, 7, "two"), text(3, 7, "three")]),
        &mut st,
        &mut j,
    );
    p.step(Event::Done, &mut st, &mut j);
    p.step(at(), &mut st, &mut j);
    p.step(Event::Done, &mut st, &mut j);
    let failed = Event::AppendFailed { message: "disk full".to_string() };
    assert_eq!(p.step(failed, &mut st, &mut j), Action::Next);
    assert_eq!(st.last_error, Some("write failed: disk full".to_string()));
    assert_eq!(p.step(Event::Done, &mut st, &mut j), Action::PersistStatus);
    assert_eq!(st.offset, 2);
    assert_eq!(p.step(Event::Done, &mut st, &mut j), Action::Rest { secs: 5 });
    assert_eq!(p.step(Event::Done, &mut st, &mut j), Action::Poll { offset: 2 });
}

#[test]
fn a_refusal_that_cannot_be_written_is_not_confirmed() {
    let (mut st, mut j) = fresh();
    let mut p = Poller::new(PUBLIC, "t", 7, 3);
    p.step(accepted(vec![file(4, 7, None, 30_000_000, "")]), &mut st, &mut j);
    p.step(Event::Done, &mut st, &mut j);
    p.step(Event::AppendFailed { message: "x".to_string() }, &mut st, &mut j);
    assert_eq!(p.step(Event::Done, &mut st, &mut j), Action::Rest { secs: 5 });
    assert_eq!(p.offset(), 3);
}

#[test]
fn other_messages_are_confirmed_only() {
    let (mut st, mut j) = fresh();
    let mut p = Poller::new(PUBLIC, "t", 7, 0);
    let nameless = Update { update_id: None, ..file(1, 7, None, 1, "") };
    p.step(accepted(vec![update(5, 7), nameless]), &mut st, &mut j);
    assert_eq!(p.step(Event::Done, &mut st, &mut j), Action::Next);
    assert_eq!(p.offset(), 6);
    assert_eq!(p.step(Event::Done, &mut st, &mut j), Action::Next);
    assert_eq!(p.offset(), 6);
    assert!(j.is_empty());
    assert_eq!(p.step(Event::Done, &mut st, &mut j), Action::PersistStatus);
}

#[test]
fn the_offset_does_not_go_back() {
    let (mut st, mut j) = fresh();
    let mut p = Poller::new(PUBLIC, "t", 7, 50);
    p.step(accepted(vec![update(5, 7)]), &mut st, &mut j);
    p.step(Event::Done, &mut st, &mut j);
    assert_eq!(p.offset(), 50);
    assert_eq!(p.step(Event::Done, &mut st, &mut j), Action::Poll { offset: 50 });
}

#[test]
fn refused_polls_are_reported() {
    let (mut st, mut j) = fresh();
    let mut p = Poller::new(PUBLIC, "123:AB", 7, 1);
    let conflict = PollReply::Rejected { code: 409, description: "Conflict".to_string() };
    assert_eq!(p.step(Event::Reply(conflict), &mut st, &mut j), Action::Rest { secs: 15 });
    assert_eq!(
        st.last_error,
        Some("conflict: this token is already being polled elsewhere (Conflict)".to_string())
    );
    assert_eq!(p.step(Event::Done, &mut st, &mut j), Action::Poll { offset: 1 });
    let other = PollReply::Rejected { code: 401, description: "Unauthorized".to_string() };
    assert_eq!(p.step(Event::Reply(other), &mut st, &mut j), Action::Rest { secs: 5 });
    assert_eq!(st.last_error, Some("Unauthorized".to_string()));
    p.step(Event::Done, &mut st, &mut j);
    assert_eq!(
        p.step(Event::Reply(PollReply::Undecodable), &mut st, &mut j),
        Action::Rest { secs: 5 }
    );
    assert_eq!(st.last_error, Some("error decoding response body".to_string()));
    p.step(Event::Done, &mut st, &mut j);
    assert_eq!(
        p.step(Event::Reply(PollReply::Accepted(None)), &mut st, &mut j),
        Action::Poll { offset: 1 }
    );
    assert_eq!(st.last_error, None);
}

#[test]
fn refusals_are_redacted() {
    let (mut st, mut j) = fresh();
    let mut p = Poller::new(PUBLIC, "123:AB", 7, 1);
    let refused = PollReply::Rejected { code: 401, description: "bot123:AB".to_string() };
    p.step(Event::Reply(refused), &mut st, &mut j);
    assert_eq!(st.last_error, Some("bot<redacted>".to_string()));
    p.step(Event::Done, &mut st, &mut j);
    let conflict = PollReply::Rejected { code: 409, description: "by 123:AB".to_string() };
    p.step(Event::Reply(conflict), &mut st, &mut j);
    assert_eq!(
        st.last_error,
        Some("conflict: this token is already being polled elsewhere (by <redacted>)".to_string())
    );
}

#[test]
fn timeouts_are_normal_and_errors_are_redacted() {
    let (mut st, mut j) = fresh();
    let mut p = Poller::new(PUBLIC, "123:AB", 7, 1);
    let timeout = Event::Unreachable { timed_out: true, message: "x".to_string() };
    assert_eq!(p.step(timeout, &mut st, &mut j), Action::Poll { offset: 1 });
    assert_eq!(st.last_error, None);
    let down =
        Event::Unreachable { timed_out: false, message: "for url (h/bot123:AB/x)".to_string() };
    assert_eq!(p.step(down, &mut st, &mut j), Action::Rest { secs: 5 });
    assert_eq!(st.last_error, Some("for url (h/bot<redacted>/x)".to_string()));
}

#[test]
fn a_batch_is_handled_whole() {
    let (mut st, mut j) = fresh();
    let mut p = Poller::new(PUBLIC, "t", 7, 0);
    let batch = vec![
        text(1, 7, "one"),
        text(2, 9, "no"),
        file(3, 7, Some("f"), 5, ""),
        update(4, 7),
        text(5, 7, "two"),
    ];
    let mut action = p.step(accepted(batch), &mut st, &mut j);
    let mut notes: Vec<String> = Vec::new();
    let mut queued: Vec<i64> = Vec::new();
    loop {
        let event = match action {
            Action::Append { note } => {
                notes.push(note);
                at()
            }
            Action::Queue { job } => {
                queued.push(job.update_id);
                Event::Done
            }
            Action::Poll { offset } => {
                assert_eq!(offset, 6);
                break;
            }
            _ => Event::Done,
        };
        action = p.step(event, &mut st, &mut j);
    }
    assert_eq!(notes, vec!["one".to_string(), "two".to_string()]);
    assert_eq!(queued, vec![3]);
    assert_eq!(st.message_count, 2);
    assert_eq!(st.offset, 6);
}

#[test]
fn polling_leaves_the_daily_error_alone() {
    let (mut st, mut j) = fresh();
    st.last_daily_error = Some("daily send failed".to_string());
    st.last_error = Some("old".to_string());
    let mut p = Poller::new(PUBLIC, "t", 7, 0);
    p.step(accepted(vec![text(1, 7, "x")]), &mut st, &mut j);
    assert_eq!(st.last_error, None);
    p.step(Event::Done, &mut st, &mut j);
    p.step(at(), &mut st, &mut j);
    assert_eq!(st.last_daily_error, Some("daily send failed".to_string()));
}

#[test]
fn a_text_without_an_id_is_written_and_left_unconfirmed() {
    let (mut st, mut j) = fresh();
    let mut p = Poller::new(PUBLIC, "t", 7, 4);
    let nameless = Update { update_id: None, ..text(1, 7, "x") };
    p.step(accepted(vec![nameless]), &mut st, &mut j);
    assert_eq!(p.step(Event::Done, &mut st, &mut j), Action::Append { note: "x".to_string() });
    p.step(at(), &mut st, &mut j);
    assert_eq!(st.message_count, 1);
    assert_eq!(p.step(Event::Done, &mut st, &mut j), Action::Poll { offset: 4 });
}
