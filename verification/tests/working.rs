use notekeeper::api::DownloadError;
use notekeeper::clock::LocalTime;
use notekeeper::download;
use notekeeper::download::Download;
use notekeeper::journal::Journal;
use notekeeper::journal::PendingDownload;
use notekeeper::status::BotStatus;
use notekeeper::worker;
use notekeeper::worker::Worker;

fn job(id: i64, name: Option<&str>, caption: &str) -> PendingDownload {
    PendingDownload {
        update_id: id,
        file_id: "FILE".to_string(),
        file_name: name.map(|n| n.to_string()),
        caption: caption.to_string(),
        chat_id: 7,
        message_id: 70,
    }
}

fn moment() -> LocalTime {
    LocalTime { year: 2026, month: 6, day: 25, hour: 14, minute: 32, second: 0 }
}

fn begun(name: Option<&str>) -> Download {
    let (d, request) = Download::begin("https://h", "123:AB", &job(1, name, ""), "/files");
    assert_eq!(request.url, "https://h/bot123:AB/getFile");
    assert_eq!(request.query, vec![("file_id".to_string(), "FILE".to_string())]);
    d
}

fn failure(a: download::Action) -> (bool, String) {
    match a {
        download::Action::Finish { outcome: Err(e) } => (e.permanent, e.msg),
        _ => panic!(),
    }
}

fn to_fetching(d: &mut Download) {
    d.step(download::Event::Info { found: Ok("docs/report.pdf".to_string()) });
    d.step(download::Event::DirReady { now: moment() });
    assert!(matches!(
        d.step(download::Event::Probed { exists: false }),
        download::Action::Fetch { .. }
    ));
}

#[test]
fn a_file_is_fetched_over_http() {
    let mut d = begun(None);
    assert_eq!(
        d.step(download::Event::Info { found: Ok("docs/report.pdf".to_string()) }),
        download::Action::Prepare { dir: "/files".to_string() }
    );
    let dest = "/files/20260625-143200_report.pdf".to_string();
    assert_eq!(
        d.step(download::Event::DirReady { now: moment() }),
        download::Action::Probe { path: dest.clone() }
    );
    match d.step(download::Event::Probed { exists: false }) {
        download::Action::Fetch { request } => {
            assert_eq!(request.url, "https://h/file/bot123:AB/docs/report.pdf");
            assert_eq!(request.timeout_secs, 300);
        }
        _ => panic!(),
    }
    assert_eq!(
        d.step(download::Event::Answered { http_status: 200 }),
        download::Action::Save { path: dest.clone() }
    );
    assert_eq!(
        d.step(download::Event::Written),
        download::Action::Finish { outcome: Ok(dest) }
    );
}

#[test]
fn taken_names_are_passed_over() {
    let mut d = begun(Some("a.txt"));
    d.step(download::Event::Info { found: Ok("x".to_string()) });
    d.step(download::Event::DirReady { now: moment() });
    assert_eq!(
        d.step(download::Event::Probed { exists: true }),
        download::Action::Probe { path: "/files/20260625-143200_a-1.txt".to_string() }
    );
    assert_eq!(
        d.step(download::Event::Probed { exists: true }),
        download::Action::Probe { path: "/files/20260625-143200_a-2.txt".to_string() }
    );
    d.step(download::Event::Probed { exists: false });
    assert_eq!(
        d.step(download::Event::Answered { http_status: 204 }),
        download::Action::Save { path: "/files/20260625-143200_a-2.txt".to_string() }
    );
}

#[test]
fn a_local_file_is_copied_and_removed() {
    let mut d = begun(Some("v.mp4"));
    d.step(download::Event::Info { found: Ok("/srv/data/v_1.mp4".to_string()) });
    d.step(download::Event::DirReady { now: moment() });
    let dest = "/files/20260625-143200_v.mp4".to_string();
    assert_eq!(
        d.step(download::Event::Probed { exists: false }),
        download::Action::Copy { from: "/srv/data/v_1.mp4".to_string(), to: dest.clone() }
    );
    assert_eq!(
        d.step(download::Event::Copied),
        download::Action::Remove { path: "/srv/data/v_1.mp4".to_string() }
    );
    assert_eq!(
        d.step(download::Event::Removed),
        download::Action::Finish { outcome: Ok(dest) }
    );
}

#[test]
fn a_local_file_that_cannot_be_read_is_given_up() {
    let mut d = begun(None);
    d.step(download::Event::Info { found: Ok("/srv/x".to_string()) });
    d.step(download::Event::DirReady { now: moment() });
    d.step(download::Event::Probed { exists: false });
    assert_eq!(
        failure(d.step(download::Event::CopyFailed { message: "gone".to_string() })),
        (true, "could not read local file: gone".to_string())
    );
}

#[test]
fn http_errors_are_told_apart() {
    for (http_status, permanent) in [(404u16, true), (499, true), (500, false), (302, false), (199, false)] {
        let mut d = begun(None);
        to_fetching(&mut d);
        assert_eq!(
            failure(d.step(download::Event::Answered { http_status })),
            (permanent, format!("file download returned HTTP {}", http_status))
        );
    }
}

#[test]
fn network_and_disk_errors_are_transient() {
    let mut d = begun(None);
    assert_eq!(
        failure(d.step(download::Event::Unreachable { message: "bot123:AB down".to_string() })),
        (false, "bot<redacted> down".to_string())
    );
    let mut d = begun(None);
    d.step(download::Event::Info { found: Ok("x".to_string()) });
    assert_eq!(
        failure(d.step(download::Event::DirFailed { message: "no".to_string() })),
        (false, "no".to_string())
    );
    let mut d = begun(None);
    to_fetching(&mut d);
    assert_eq!(
        failure(d.step(download::Event::Unreachable { message: "reset".to_string() })),
        (false, "reset".to_string())
    );
    let mut d = begun(None);
    to_fetching(&mut d);
    d.step(download::Event::Answered { http_status: 200 });
    assert_eq!(
        failure(d.step(download::Event::WriteFailed { message: "full".to_string() })),
        (false, "full".to_string())
    );
}

#[test]
fn an_error_of_get_file_ends_the_download() {
    let mut d = begun(None);
    let found = Err(DownloadError::permanent("file is too big".to_string()));
    assert_eq!(
        failure(d.step(download::Event::Info { found })),
        (true, "file is too big".to_string())
    );
}

fn working(ids: &[i64]) -> (Worker, BotStatus, Journal) {
    let jobs = ids.iter().map(|i| job(*i, None, "")).collect();
    (Worker::new(), BotStatus::default(), Journal::from_jobs(jobs))
}

#[test]
fn a_saved_file_is_noted_and_answered() {
    let (mut w, mut st, mut j) = working(&[1, 2]);
    st.last_error = Some("old".to_string());
    let first = job(1, Some("photo.jpg"), "vacation pic");
    assert_eq!(
        w.step(worker::Event::Job { job: first.clone() }, &mut st, &mut j),
        worker::Action::Attempt { job: first }
    );
    let dest = "/Users/you/notes/attachments/20260625-143300_photo.jpg".to_string();
    assert_eq!(
        w.step(worker::Event::Saved { dest, size: 1_234_567 }, &mut st, &mut j),
        worker::Action::Append {
            note: "saved file: 20260625-143300_photo.jpg \u{2192} /Users/you/notes/attachments/20260625-143300_photo.jpg \u{2014} vacation pic".to_string()
        }
    );
    let written = worker::Event::Appended { at: "14:33".to_string() };
    assert_eq!(w.step(written, &mut st, &mut j), worker::Action::PersistStatus);
    assert_eq!(st.message_count, 1);
    assert_eq!(st.last_error, None);
    assert_eq!(
        w.step(worker::Event::Done, &mut st, &mut j),
        worker::Action::React { chat_id: 7, message_id: 70 }
    );
    assert_eq!(
        w.step(worker::Event::Done, &mut st, &mut j),
        worker::Action::Send {
            chat_id: 7,
            message: "\u{2705} Saved 20260625-143300_photo.jpg (1.2 MB)".to_string()
        }
    );
    assert!(j.has(1));
    assert_eq!(w.step(worker::Event::Done, &mut st, &mut j), worker::Action::PersistJournal);
    assert!(!j.has(1));
    assert!(j.has(2));
    assert_eq!(w.step(worker::Event::Done, &mut st, &mut j), worker::Action::Receive);
}

#[test]
fn a_file_without_a_note_is_answered_with_a_warning() {
    let (mut w, mut st, mut j) = working(&[1]);
    w.step(worker::Event::Job { job: job(1, None, "") }, &mut st, &mut j);
    assert_eq!(
        w.step(worker::Event::Saved { dest: "/f/a.txt".to_string(), size: 0 }, &mut st, &mut j),
        worker::Action::Append { note: "saved file: a.txt \u{2192} /f/a.txt".to_string() }
    );
    let failed = worker::Event::AppendFailed { message: "read-only".to_string() };
    assert_eq!(
        w.step(failed, &mut st, &mut j),
        worker::Action::Send {
            chat_id: 7,
            message: "\u{26a0}\u{fe0f} Downloaded a.txt (unknown size) but couldn't write its note to the file: read-only".to_string()
        }
    );
    assert_eq!(st.last_error, Some("file saved but note write failed: read-only".to_string()));
    assert_eq!(st.message_count, 0);
    assert_eq!(w.step(worker::Event::Done, &mut st, &mut j), worker::Action::PersistJournal);
    assert!(j.is_empty());
}

#[test]
fn a_permanent_failure_is_noted_and_forgotten() {
    let (mut w, mut st, mut j) = working(&[1]);
    w.step(worker::Event::Job { job: job(1, None, "cap") }, &mut st, &mut j);
    let error = DownloadError::permanent("file is too big".to_string());
    assert_eq!(
        w.step(worker::Event::Failed { error }, &mut st, &mut j),
        worker::Action::Append { note: "could not save file: file is too big \u{2014} cap".to_string() }
    );
    let failed = worker::Event::AppendFailed { message: "x".to_string() };
    assert_eq!(
        w.step(failed, &mut st, &mut j),
        worker::Action::Send { chat_id: 7, message: "\u{26a0}\u{fe0f} file is too big".to_string() }
    );
    assert_eq!(st.last_error, None);
    w.step(worker::Event::Done, &mut st, &mut j);
    assert!(j.is_empty());
}

#[test]
fn a_transient_failure_is_retried() {
    let (mut w, mut st, mut j) = working(&[1]);
    w.step(worker::Event::Job { job: job(1, None, "") }, &mut st, &mut j);
    let error = DownloadError::transient("reset".to_string());
    assert_eq!(
        w.step(worker::Event::Failed { error }, &mut st, &mut j),
        worker::Action::Rest { secs: 10 }
    );
    assert_eq!(st.last_error, Some("file save failed: reset".to_string()));
    assert_eq!(
        w.step(worker::Event::Done, &mut st, &mut j),
        worker::Action::Attempt { job: job(1, None, "") }
    );
    assert!(j.has(1));
}

#[test]
fn a_finished_job_is_skipped() {
    let (mut w, mut st, mut j) = working(&[2]);
    assert_eq!(
        w.step(worker::Event::Job { job: job(1, None, "") }, &mut st, &mut j),
        worker::Action::Receive
    );
    assert!(j.has(2));
}

#[test]
fn completing_a_job_keeps_the_others_in_order() {
    let mut j = Journal::from_jobs(vec![job(3, None, ""), job(1, None, ""), job(2, None, "")]);
    j.complete(1);
    let ids: Vec<i64> = j.jobs().iter().map(|p| p.update_id).collect();
    assert_eq!(ids, vec![3, 2]);
    j.complete(9);
    assert_eq!(j.jobs().len(), 2);
}

#[test]
fn a_dropped_file_is_noted_like_a_received_one() {
    assert_eq!(worker::dropped_file_note("/f/a.txt"), "saved file: a.txt \u{2192} /f/a.txt");
}
