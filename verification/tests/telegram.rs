use notekeeper::api;
use notekeeper::api::PollReply;
use serde_json::Value;

fn doc(s: &str) -> Value {
    serde_json::from_str(s).unwrap()
}

#[test]
fn api_bases_are_normalized() {
    assert_eq!(api::resolve_api_base(None), "https://api.telegram.org");
    assert_eq!(api::resolve_api_base(Some("")), "https://api.telegram.org");
    assert_eq!(api::resolve_api_base(Some("  \n")), "https://api.telegram.org");
    assert_eq!(api::resolve_api_base(Some(" http://127.0.0.1:8081/ ")), "http://127.0.0.1:8081");
    assert_eq!(api::resolve_api_base(Some("http://host//")), "http://host");
    assert_eq!(api::resolve_api_base(Some("///")), "");
}

#[test]
fn only_the_public_api_is_capped() {
    assert!(api::is_capped(&api::resolve_api_base(None)));
    assert!(api::is_capped(&api::resolve_api_base(Some("https://api.telegram.org/"))));
    assert!(!api::is_capped("http://127.0.0.1:8081"));
}

#[test]
fn gets_carry_the_token_in_the_address() {
    let r = api::get_me_request("https://h", "1:A");
    assert_eq!(r.url, "https://h/bot1:A/getMe");
    assert_eq!(r.query.len(), 0);
    assert_eq!(r.timeout_secs, 15);
    let r = api::updates_request("https://h", "1:A", -3);
    assert_eq!(r.url, "https://h/bot1:A/getUpdates");
    assert_eq!(
        r.query,
        vec![
            ("offset".to_string(), "-3".to_string()),
            ("timeout".to_string(), "30".to_string()),
            ("allowed_updates".to_string(), "[\"message\"]".to_string()),
        ]
    );
    assert_eq!(r.timeout_secs, 45);
    let r = api::file_info_request("https://h", "1:A", "FILE");
    assert_eq!(r.url, "https://h/bot1:A/getFile");
    assert_eq!(r.query, vec![("file_id".to_string(), "FILE".to_string())]);
    assert_eq!(r.timeout_secs, 30);
    let r = api::file_request("https://h", "1:A", "photos/f.jpg");
    assert_eq!(r.url, "https://h/file/bot1:A/photos/f.jpg");
    assert_eq!(r.timeout_secs, 300);
}

#[test]
fn posts_carry_a_document() {
    let r = api::reaction_request("https://h", "1:A", 5, 6);
    assert_eq!(r.url, "https://h/bot1:A/setMessageReaction");
    assert_eq!(r.timeout_secs, 10);
    assert_eq!(
        r.body,
        doc("{\"chat_id\":5,\"message_id\":6,\"reaction\":[{\"type\":\"emoji\",\"emoji\":\"\\ud83d\\udc4d\"}]}")
    );
    let r = api::message_request("https://h", "1:A", -7, "hi \"you\"");
    assert_eq!(r.url, "https://h/bot1:A/sendMessage");
    assert_eq!(r.timeout_secs, 10);
    assert_eq!(r.body, doc("{\"chat_id\":-7,\"text\":\"hi \\\"you\\\"\"}"));
    let r = api::checked_message_request("https://h", "1:A", -7, "hi");
    assert_eq!(r.timeout_secs, 20);
    assert_eq!(r.body, doc("{\"chat_id\":-7,\"text\":\"hi\"}"));
}

#[test]
fn attachments_are_found_in_order_of_priority() {
    let a = api::extract_attachment(&doc(
        "{\"video\":{\"file_id\":\"v\",\"file_size\":7},\"document\":{\"file_id\":\"d\",\"file_name\":\"d.pdf\"}}",
    ))
    .unwrap();
    assert_eq!(a.file_id, "d");
    assert_eq!(a.file_name, Some("d.pdf".to_string()));
    assert_eq!(a.file_size, 0);
    for key in ["document", "video", "audio", "voice", "animation", "video_note"] {
        let m = format!("{{\"{}\":{{\"file_id\":\"x\",\"file_size\":12}}}}", key);
        let a = api::extract_attachment(&doc(&m)).unwrap();
        assert_eq!(a.file_id, "x");
        assert_eq!(a.file_name, None);
        assert_eq!(a.file_size, 12);
    }
}

#[test]
fn attachments_without_an_id_are_passed_over() {
    let a = api::extract_attachment(&doc(
        "{\"document\":{\"file_name\":\"x\"},\"audio\":{\"file_id\":\"a\"}}",
    ))
    .unwrap();
    assert_eq!(a.file_id, "a");
    assert!(api::extract_attachment(&doc("{\"text\":\"hi\"}")).is_none());
    assert!(api::extract_attachment(&doc("{\"document\":{\"file_id\":5}}")).is_none());
    assert!(api::extract_attachment(&doc("null")).is_none());
}

#[test]
fn the_largest_photo_is_taken() {
    let a = api::extract_attachment(&doc(
        "{\"photo\":[{\"file_id\":\"s\",\"file_size\":1},{\"file_id\":\"l\",\"file_size\":9,\"file_name\":\"n\"}]}",
    ))
    .unwrap();
    assert_eq!(a.file_id, "l");
    assert_eq!(a.file_name, None);
    assert_eq!(a.file_size, 9);
    assert!(api::extract_attachment(&doc("{\"photo\":[]}")).is_none());
    let a = api::extract_attachment(&doc(
        "{\"photo\":[{\"file_id\":\"s\"},{}],\"sticker\":{\"file_id\":\"st\",\"file_size\":3,\"file_name\":\"n\"}}",
    ))
    .unwrap();
    assert_eq!(a.file_id, "st");
    assert_eq!(a.file_name, None);
    assert_eq!(a.file_size, 3);
}

#[test]
fn updates_are_read() {
    let u = api::read_update(&doc(
        "{\"update_id\":10,\"message\":{\"message_id\":3,\"from\":{\"id\":7},\"chat\":{\"id\":8},\"text\":\" hi \"}}",
    ));
    assert_eq!(u.update_id, Some(10));
    assert_eq!((u.from_id, u.chat_id, u.message_id), (7, 8, 3));
    assert_eq!(u.text, Some(" hi ".to_string()));
    assert_eq!(u.caption, "");
    assert!(u.attachment.is_none());
    let u = api::read_update(&doc(
        "{\"message\":{\"from\":{\"id\":7},\"caption\":\"  a b \",\"voice\":{\"file_id\":\"v\"}}}",
    ));
    assert_eq!(u.update_id, None);
    assert_eq!((u.from_id, u.chat_id, u.message_id), (7, 7, 0));
    assert_eq!(u.caption, "a b");
    assert_eq!(u.text, None);
    assert_eq!(u.attachment.unwrap().file_id, "v");
    let u = api::read_update(&doc("{}"));
    assert_eq!((u.from_id, u.chat_id, u.message_id), (0, 0, 0));
}

#[test]
fn poll_replies_are_read() {
    match api::read_poll_reply(b"{\"ok\":true,\"result\":[{\"update_id\":1},{\"update_id\":2}]}") {
        PollReply::Accepted(Some(list)) => {
            assert_eq!(list.len(), 2);
            assert_eq!(list[1].update_id, Some(2));
        }
        _ => panic!(),
    }
    assert_eq!(api::read_poll_reply(b"{\"ok\":true}"), PollReply::Accepted(None));
    assert_eq!(api::read_poll_reply(b"<html>"), PollReply::Undecodable);
    assert_eq!(api::read_poll_reply(b""), PollReply::Undecodable);
    assert_eq!(
        api::read_poll_reply(b"{\"ok\":false,\"error_code\":409,\"description\":\"Conflict\"}"),
        PollReply::Rejected { code: 409, description: "Conflict".to_string() }
    );
    assert_eq!(
        api::read_poll_reply(b"{\"ok\":1}"),
        PollReply::Rejected { code: 0, description: "getUpdates error".to_string() }
    );
}

#[test]
fn identities_are_read() {
    let body = b"{\"ok\":true,\"result\":{\"username\":\"ideas_bot\"}}";
    assert_eq!(api::read_identity(body, "t"), Ok("ideas_bot".to_string()));
    assert_eq!(api::read_identity(b"{\"ok\":true}", "t"), Ok("unknown".to_string()));
    let body = b"{\"ok\":false,\"description\":\"Unauthorized\"}";
    assert_eq!(api::read_identity(body, "1:A"), Err("Unauthorized".to_string()));
    assert_eq!(api::read_identity(b"[]", "1:A"), Err("invalid token".to_string()));
    let body = b"{\"ok\":false,\"description\":\"no bot 123:AB here\"}";
    assert_eq!(api::read_identity(body, "123:AB"), Err("no bot <redacted> here".to_string()));
    assert_eq!(api::read_identity(b"", "1:A"), Err("error decoding response body".to_string()));
    assert_eq!(
        api::read_identity(b"", "decoding"),
        Err("error <redacted> response body".to_string())
    );
}

#[test]
fn file_infos_are_read() {
    let body = b"{\"ok\":true,\"result\":{\"file_path\":\"photos/1.jpg\"}}";
    assert_eq!(api::read_file_info(body, "t"), Ok("photos/1.jpg".to_string()));
    let e = api::read_file_info(b"{\"ok\":true,\"result\":{}}", "t").unwrap_err();
    assert_eq!((e.permanent, e.msg.as_str()), (true, "getFile returned no file_path"));
    let e = api::read_file_info(b"{\"ok\":false,\"description\":\"file is too big\"}", "1:A").unwrap_err();
    assert_eq!((e.permanent, e.msg.as_str()), (true, "file is too big"));
    let e = api::read_file_info(b"{}", "1:A").unwrap_err();
    assert_eq!((e.permanent, e.msg.as_str()), (true, "getFile failed"));
    let e = api::read_file_info(b"{\"ok\":false,\"description\":\"bot1:A\"}", "1:A").unwrap_err();
    assert_eq!((e.permanent, e.msg.as_str()), (true, "bot<redacted>"));
    let e = api::read_file_info(b"?", "1:A").unwrap_err();
    assert_eq!((e.permanent, e.msg.as_str()), (false, "error decoding response body"));
}

#[test]
fn acceptance_is_read() {
    assert!(api::read_accepted(b"{\"ok\":true}"));
    assert!(!api::read_accepted(b"{\"ok\":false}"));
    assert!(!api::read_accepted(b"{\"ok\":\"true\"}"));
    assert!(!api::read_accepted(b"nope"));
    assert!(api::is_accepted(&doc("{\"ok\":true}")));
}
