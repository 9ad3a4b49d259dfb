use notekeeper::config::ServerConfig;
use notekeeper::server;

fn cfg() -> ServerConfig {
    ServerConfig {
        enabled: true,
        bin_path: None,
        port: 0,
        api_id: 12345,
        api_hash: "abc".to_string(),
    }
}

#[test]
fn the_local_server_is_on_loopback() {
    assert_eq!(server::local_url(8081), "http://127.0.0.1:8081");
    assert_eq!(server::local_url(0), "http://127.0.0.1:0");
    assert_eq!(server::local_url(65535), "http://127.0.0.1:65535");
}

#[test]
fn bots_are_routed_through_a_running_server() {
    assert_eq!(server::route_api_base(Some("http://x"), Some(9000)), "http://127.0.0.1:9000");
    assert_eq!(server::route_api_base(None, Some(9000)), "http://127.0.0.1:9000");
    assert_eq!(server::route_api_base(Some("http://x/"), None), "http://x");
    assert_eq!(server::route_api_base(None, None), "https://api.telegram.org");
}

#[test]
fn an_explicit_binary_has_no_substitute() {
    assert_eq!(server::binary_candidates(Some(" /b ")), vec!["/b".to_string()]);
    assert_eq!(
        server::locate_binary(Some(" /b "), &vec![true], Some("/usr/bin/x")),
        Some("/b".to_string())
    );
    assert_eq!(server::locate_binary(Some(" /b "), &vec![false], Some("/usr/bin/x")), None);
}

#[test]
fn install_locations_come_before_the_path() {
    let places = server::binary_candidates(Some("  "));
    assert_eq!(
        places,
        vec![
            "/opt/homebrew/bin/telegram-bot-api".to_string(),
            "/usr/local/bin/telegram-bot-api".to_string(),
            "/usr/bin/telegram-bot-api".to_string(),
        ]
    );
    assert_eq!(
        server::locate_binary(None, &vec![false, true, true], Some("/w")),
        Some("/usr/local/bin/telegram-bot-api".to_string())
    );
    assert_eq!(
        server::locate_binary(None, &vec![false, false, false], Some("/w/telegram-bot-api\n")),
        Some("/w/telegram-bot-api".to_string())
    );
    assert_eq!(server::locate_binary(None, &vec![false, false, false], Some(" \n")), None);
    assert_eq!(server::locate_binary(None, &vec![false, false, false], None), None);
}

#[test]
fn the_server_is_started_with_its_settings() {
    let l = server::plan_launch(&cfg(), "/data", Some("/b".to_string())).unwrap();
    assert_eq!(l.binary, "/b");
    assert_eq!(l.port, 8081);
    assert_eq!(l.temp_dir, "/data/temp");
    assert_eq!(
        l.args,
        vec![
            "--local".to_string(),
            "--http-ip-address=127.0.0.1".to_string(),
            "--http-port=8081".to_string(),
            "--api-id=12345".to_string(),
            "--api-hash=abc".to_string(),
            "--dir=/data".to_string(),
            "--temp-dir=/data/temp".to_string(),
        ]
    );
    assert_eq!(server::local_url(l.port), "http://127.0.0.1:8081");
}

#[test]
fn the_server_needs_credentials_and_a_binary() {
    let missing = Err("api_id and api_hash are required to run the local server".to_string());
    let mut c = cfg();
    c.api_id = 0;
    assert!(server::check_credentials(&c).is_err());
    assert_eq!(server::check_credentials(&cfg()), Ok(()));
    assert_eq!(server::plan_launch(&c, "/data", Some("/b".to_string())), missing);
    let mut c = cfg();
    c.api_hash = "  ".to_string();
    assert_eq!(server::plan_launch(&c, "/data", None), missing);
    assert_eq!(
        server::plan_launch(&cfg(), "/data", None),
        Err("telegram-bot-api not found \u{2014} install it (e.g. `brew install telegram-bot-api`) or set its path in server settings".to_string())
    );
    assert_eq!(server::launch_failure("denied"), "could not start telegram-bot-api: denied");
}
