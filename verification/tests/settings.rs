use notekeeper::bot;
use notekeeper::config;
use notekeeper::config::BotConfig;
use notekeeper::config::BotSettings;
use notekeeper::config::Config;
use notekeeper::config::ServerConfig;
use notekeeper::secrets;
use notekeeper::secrets::Action;
use notekeeper::secrets::Event;
use notekeeper::secrets::Hydration;
use notekeeper::secrets::KeychainEntry;
use notekeeper::status::BotStatus;
use notekeeper::status::StatusBoard;
use notekeeper::tray;
use std::collections::HashMap;

fn settings(name: &str) -> BotSettings {
    BotSettings {
        name: name.to_string(),
        token: "123:AB".to_string(),
        file: format!("/notes/{}.md", name),
        allowed_user_id: 7,
        enabled: true,
        shortcut: None,
        files_dir: None,
        api_base: None,
        daily_send: None,
        daily_time: None,
    }
}

fn a_bot(id: &str, name: &str) -> BotConfig {
    settings(name).create(id.to_string())
}

fn two_bots() -> Config {
    let mut c = Config::default();
    c.add_bot(a_bot("1", "ideas"));
    c.add_bot(a_bot("2", "tasks"));
    c
}

#[test]
fn defaults() {
    let c = Config::default();
    assert_eq!(c.bots.len(), 0);
    assert_eq!(
        c.server,
        ServerConfig { enabled: false, bin_path: None, port: 8081, api_id: 0, api_hash: String::new() }
    );
    assert!(config::default_true());
    assert_eq!(config::default_port(), 8081);
    assert_eq!(config::default_daily_time(), "08:00");
}

#[test]
fn port_zero_is_the_default_port() {
    let mut s = ServerConfig::default();
    s.port = 0;
    assert_eq!(s.effective_port(), 8081);
    s.port = 9000;
    assert_eq!(s.effective_port(), 9000);
}

#[test]
fn new_bots_have_ids_of_their_own() {
    let a = settings("ideas").new_bot();
    let b = settings("ideas").new_bot();
    assert_ne!(a.id, b.id);
    assert_eq!(a.id.len(), 36);
    assert_eq!(a.name, "ideas");
    assert_eq!(a.token, "123:AB");
}

#[test]
fn bots_are_updated_in_place() {
    let mut c = two_bots();
    let mut s = settings("ideas2");
    s.enabled = false;
    s.shortcut = Some("CmdOrCtrl+Shift+KeyI".to_string());
    let b = c.update_bot("1", s).unwrap();
    assert_eq!(b.id, "1");
    assert_eq!(b.name, "ideas2");
    assert_eq!(c.bots[0], b);
    assert_eq!(c.bots[1], a_bot("2", "tasks"));
    assert_eq!(c.update_bot("3", settings("x")), Err("bot not found".to_string()));
    assert_eq!(c.bots.len(), 2);
}

#[test]
fn what_is_not_set_is_left_alone() {
    let mut c = two_bots();
    c.bots[0].files_dir = Some("/files".to_string());
    c.bots[0].api_base = Some("http://x".to_string());
    c.bots[0].daily_send = true;
    c.bots[0].daily_time = "09:15".to_string();
    let b = c.update_bot("1", settings("renamed")).unwrap();
    assert_eq!(b.name, "renamed");
    assert_eq!(b.files_dir, Some("/files".to_string()));
    assert_eq!(b.api_base, Some("http://x".to_string()));
    assert!(b.daily_send);
    assert_eq!(b.daily_time, "09:15");
    let mut s = settings("renamed");
    s.files_dir = Some(String::new());
    s.daily_send = Some(false);
    s.daily_time = Some("10:00".to_string());
    let b = c.update_bot("1", s).unwrap();
    assert_eq!(b.files_dir, Some(String::new()));
    assert_eq!(b.api_base, Some("http://x".to_string()));
    assert!(!b.daily_send);
    assert_eq!(b.daily_time, "10:00");
}

#[test]
fn new_bots_start_with_the_defaults() {
    let b = a_bot("1", "x");
    assert_eq!((b.files_dir, b.api_base, b.daily_send), (None, None, false));
    assert_eq!(b.daily_time, "08:00");
}

#[test]
fn bots_are_enabled_and_disabled() {
    let mut c = two_bots();
    let b = c.set_enabled("2", false).unwrap();
    assert!(!b.enabled);
    assert_eq!(c.bots[1], b);
    assert_eq!(c.enabled_bots(), vec![a_bot("1", "ideas")]);
    assert_eq!(c.set_enabled("9", true), Err("bot not found".to_string()));
}

#[test]
fn removed_bots_are_gone() {
    let mut c = two_bots();
    c.remove_bot("1");
    assert_eq!(c.bots, vec![a_bot("2", "tasks")]);
    c.remove_bot("1");
    assert_eq!(c.bots.len(), 1);
}

#[test]
fn files_and_names_are_found() {
    let c = two_bots();
    assert_eq!(c.file_of("2"), Ok("/notes/tasks.md".to_string()));
    assert_eq!(c.file_of("3"), Err("bot not found".to_string()));
    assert_eq!(c.name_of("1"), "ideas");
    assert_eq!(c.name_of("3"), "");
    assert_eq!(c.find("2"), Some(1));
    assert_eq!(c.find("3"), None);
}

#[test]
fn blank_hotkeys_are_not_registered() {
    let mut c = Config::default();
    for (id, shortcut) in [("1", None), ("2", Some("  ")), ("3", Some("Alt+KeyN"))] {
        let mut b = a_bot(id, "x");
        b.shortcut = shortcut.map(|s: &str| s.to_string());
        c.add_bot(b);
    }
    assert_eq!(c.hotkeys(), vec![("Alt+KeyN".to_string(), "3".to_string())]);
}

#[test]
fn secrets_stay_out_of_the_file() {
    let mut c = two_bots();
    c.server.api_hash = "hash".to_string();
    c.server.api_id = 5;
    let saved = c.without_secrets();
    assert_eq!(saved.server.api_hash, "");
    assert_eq!(saved.server.api_id, 5);
    assert_eq!(saved.bots[0].token, "");
    assert_eq!(saved.bots[0].name, "ideas");
    assert_eq!(c.bots[0].token, "123:AB");
}

#[test]
fn the_dashboard_has_a_row_for_each_bot() {
    let c = two_bots();
    let mut board = StatusBoard::new();
    let mut s = BotStatus::default();
    s.message_count = 3;
    board.set("2", s);
    let rows = c.dashboard(&board);
    assert_eq!(rows.len(), 2);
    assert_eq!(rows[0].status, BotStatus::default());
    assert_eq!(rows[1].bot.id, "2");
    assert_eq!(rows[1].status.message_count, 3);
}

#[test]
fn found_tokens_replace_those_in_memory() {
    let mut b = a_bot("1", "x");
    assert!(!secrets::hydrate_bot(&mut b, Some("9:Z".to_string())));
    assert_eq!(b.token, "9:Z");
    assert!(secrets::hydrate_bot(&mut b, None));
    assert_eq!(b.token, "9:Z");
    b.token = String::new();
    assert!(!secrets::hydrate_bot(&mut b, None));
}

fn entry(id: &str) -> KeychainEntry {
    KeychainEntry { service: "com.notekeeper.app".to_string(), account: id.to_string() }
}

#[test]
fn each_bot_has_an_entry_of_its_own() {
    assert_eq!(secrets::keychain_entry("42"), entry("42"));
    assert_eq!(secrets::store_of("42", "123:AB"), (entry("42"), "123:AB".to_string()));
}

#[test]
fn only_missing_tokens_are_stored() {
    let mut c = two_bots();
    c.add_bot(a_bot("3", "third"));
    c.bots[2].token = String::new();
    let (mut h, action) = Hydration::begin(&c);
    assert_eq!(action, Action::Read { entry: entry("1") });
    let found = Event::Found { token: Some("9:Z".to_string()) };
    assert_eq!(h.step(found, &mut c), Action::Read { entry: entry("2") });
    assert_eq!(c.bots[0].token, "9:Z");
    assert_eq!(
        h.step(Event::Found { token: None }, &mut c),
        Action::Store { entry: entry("2"), token: "123:AB".to_string() }
    );
    assert_eq!(
        h.step(Event::Stored { accepted: true }, &mut c),
        Action::Read { entry: entry("3") }
    );
    assert_eq!(h.step(Event::Found { token: None }, &mut c), Action::Done { migrated: true });
    assert_eq!(c.bots[1].token, "123:AB");
    assert_eq!(c.bots[2].token, "");
}

/// Runs a hydration against a Keychain that keeps what it is given, and tells
/// what that was.
fn hydrate(c: &mut Config, kept: &mut HashMap<String, String>) -> (Vec<(String, String)>, bool) {
    let mut given: Vec<(String, String)> = Vec::new();
    let (mut h, mut action) = Hydration::begin(c);
    loop {
        let event = match action {
            Action::Read { entry } => Event::Found { token: kept.get(&entry.account).cloned() },
            Action::Store { entry, token } => {
                kept.insert(entry.account.clone(), token.clone());
                given.push((entry.account, token));
                Event::Stored { accepted: true }
            }
            Action::Done { migrated } => return (given, migrated),
        };
        action = h.step(event, c);
    }
}

#[test]
fn hydrating_twice_is_hydrating_once() {
    let mut c = two_bots();
    let mut kept = HashMap::from([("1".to_string(), "9:Z".to_string())]);
    let (given, migrated) = hydrate(&mut c, &mut kept);
    assert_eq!(given, vec![("2".to_string(), "123:AB".to_string())]);
    assert!(migrated);
    let bots = c.bots.clone();
    let before = kept.clone();
    let (given, migrated) = hydrate(&mut c, &mut kept);
    assert_eq!(given.len(), 0);
    assert!(!migrated);
    assert_eq!(c.bots, bots);
    assert_eq!(kept, before);
}

#[test]
fn bots_that_share_an_id_share_the_first_token() {
    let mut c = two_bots();
    c.bots[1].id = "1".to_string();
    c.bots[1].token = "456:CD".to_string();
    let mut kept = HashMap::new();
    assert!(hydrate(&mut c, &mut kept).1);
    assert_eq!(c.bots[1].token, "123:AB");
    let bots = c.bots.clone();
    assert!(!hydrate(&mut c, &mut kept).1);
    assert_eq!(c.bots, bots);
}

#[test]
fn refused_tokens_are_not_migrated() {
    let mut c = two_bots();
    c.remove_bot("2");
    let (mut h, _) = Hydration::begin(&c);
    h.step(Event::Found { token: None }, &mut c);
    assert_eq!(h.step(Event::Stored { accepted: false }, &mut c), Action::Done { migrated: false });
    let mut none = Config::default();
    let (_, action) = Hydration::begin(&none);
    assert_eq!(action, Action::Done { migrated: false });
    assert!(!secrets::hydrate_tokens(&mut none));
}

#[test]
fn tokens_in_memory_are_migrated() {
    // The store behind the Keychain interface keeps nothing here: each entry
    // starts out empty and takes what it is given.
    assert_eq!(secrets::get_token("nobody"), None);
    assert_eq!(secrets::set_token("nobody", "t"), Ok(()));
    secrets::delete_token("nobody");
    let mut c = two_bots();
    c.bots[1].token = String::new();
    assert!(secrets::hydrate_tokens(&mut c));
    assert_eq!(c.bots[0].token, "123:AB");
    assert_eq!(c.bots[1].token, "");
    c.bots[0].token = String::new();
    assert!(!secrets::hydrate_tokens(&mut c));
}

#[test]
fn statuses_are_kept_by_id() {
    let mut board = StatusBoard::new();
    assert!(!board.contains("a"));
    board.mark_stopped("a");
    assert_eq!(board.len(), 0);
    board.mark_started("a");
    assert!(board.status_of("a").running);
    board.mark_captured("b", "09:00".to_string());
    assert_eq!(board.status_of("b").message_count, 1);
    assert_eq!(board.status_of("b").last_message_at, Some("09:00".to_string()));
    board.mark_stopped("a");
    assert!(!board.status_of("a").running);
    assert_eq!(board.len(), 2);
    assert_eq!(board.entry(1).0, "b");
    board.mark_started("c");
    board.remove("a");
    assert!(!board.contains("a"));
    assert_eq!(board.len(), 2);
    assert_eq!((board.entry(0).0.as_str(), board.entry(1).0.as_str()), ("b", "c"));
    assert!(board.contains("b"));
    assert_eq!(board.status_of("a"), BotStatus::default());
}

#[test]
fn restarts_keep_counters_and_offsets() {
    let s = BotStatus {
        running: true,
        username: Some("u".to_string()),
        last_error: Some("e".to_string()),
        last_daily_error: Some("d".to_string()),
        last_message_at: Some("10:00".to_string()),
        message_count: 4,
        offset: 99,
    };
    let r = s.restored();
    assert_eq!(
        r,
        BotStatus {
            last_message_at: Some("10:00".to_string()),
            message_count: 4,
            offset: 99,
            ..BotStatus::default()
        }
    );
}

#[test]
fn identities_are_recorded() {
    let mut s = BotStatus::default();
    s.identify(Err("Unauthorized".to_string()));
    assert!(s.running);
    assert_eq!(s.last_error, Some("getMe failed: Unauthorized".to_string()));
    assert_eq!(s.username, None);
    s.identify(Ok("ideas_bot".to_string()));
    assert_eq!(s.last_error, None);
    assert_eq!(s.username, Some("ideas_bot".to_string()));
}

#[test]
fn plans_for_a_start() {
    let mut b = a_bot("42", "ideas");
    b.daily_send = true;
    let p = bot::plan_start(&b, "/conf/status.json", None);
    assert_eq!(p.base, "https://api.telegram.org");
    assert_eq!(p.save_dir, "/notes/attachments");
    assert_eq!(p.journal_file, "/conf/pending-42.json");
    assert_eq!(p.daily_chat, Some(7));
    let mut s = BotStatus::default();
    s.last_daily_error = Some("old".to_string());
    bot::ready_status(&p, &mut s);
    assert_eq!(s.last_daily_error, Some("old".to_string()));
    b.allowed_user_id = 0;
    b.files_dir = Some("/files".to_string());
    b.api_base = Some("http://other/".to_string());
    let p = bot::plan_start(&b, "/conf/status.json", Some(9000));
    assert_eq!(p.base, "http://127.0.0.1:9000");
    assert_eq!(p.save_dir, "/files");
    assert_eq!(p.daily_chat, None);
    bot::ready_status(&p, &mut s);
    assert_eq!(s.last_daily_error, None);
    assert_eq!(bot::plan_start(&b, "s", None).base, "http://other");
}

#[test]
fn a_note_file_needs_a_path() {
    assert_eq!(bot::check_note_path(" "), Err("no file path set for this bot".to_string()));
    assert_eq!(bot::check_note_path("a.md"), Ok(()));
}

#[test]
fn the_tray_shows_each_bot() {
    let mut c = Config::default();
    let mut board = StatusBoard::new();
    for (id, enabled, running, error) in [
        ("a", false, true, true),
        ("b", true, true, true),
        ("c", true, true, false),
        ("d", true, false, false),
    ] {
        let mut b = a_bot(id, &format!("n{}", id));
        b.enabled = enabled;
        c.add_bot(b);
        let mut s = BotStatus::default();
        s.running = running;
        s.message_count = 12;
        if error {
            s.last_error = Some("e".to_string());
        }
        board.set(id, s);
    }
    c.add_bot(a_bot("e", "new"));
    let t = tray::tray_menu(&c, &board);
    assert_eq!(
        t.items,
        vec![
            ("bot_a".to_string(), "\u{26aa} na  \u{b7}  12 saved".to_string()),
            ("bot_b".to_string(), "\u{1f534} nb  \u{b7}  12 saved".to_string()),
            ("bot_c".to_string(), "\u{1f7e2} nc  \u{b7}  12 saved".to_string()),
            ("bot_d".to_string(), "\u{1f7e1} nd  \u{b7}  12 saved".to_string()),
            ("bot_e".to_string(), "\u{1f7e1} new  \u{b7}  0 saved".to_string()),
        ]
    );
    assert_eq!(t.tooltip, "Notekeeper \u{2014} 1 running, 1 error(s)");
    assert_eq!(
        tray::tray_signature(&c, &board),
        "a|na|false|true|true|12;b|nb|true|true|true|12;c|nc|true|true|false|12;d|nd|true|false|false|12;e|new|true|false|false|0;"
    );
}

#[test]
fn a_failed_daily_send_shows_red() {
    let c = two_bots();
    let mut board = StatusBoard::new();
    let mut s = BotStatus::default();
    s.running = true;
    s.last_daily_error = Some("daily send failed".to_string());
    board.set("1", s);
    let t = tray::tray_menu(&c, &board);
    assert_eq!(t.items[0].1, "\u{1f534} ideas  \u{b7}  0 saved");
    assert_eq!(t.tooltip, "Notekeeper \u{2014} 0 running, 1 error(s)");
    assert!(tray::tray_signature(&c, &board).starts_with("1|ideas|true|true|true|0;"));
}

#[test]
fn the_signature_changes_with_what_is_shown() {
    let c = two_bots();
    let mut board = StatusBoard::new();
    let before = tray::tray_signature(&c, &board);
    assert_eq!(before, tray::tray_signature(&c, &board));
    board.mark_captured("1", "10:00".to_string());
    let after = tray::tray_signature(&c, &board);
    assert_ne!(before, after);
}
