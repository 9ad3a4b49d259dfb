use notekeeper::redact::scrub;

#[test]
fn tokens_are_redacted() {
    let msg = "error sending request for url (https://api.telegram.org/bot123:AB/getMe)".to_string();
    assert_eq!(
        scrub(msg, "123:AB"),
        "error sending request for url (https://api.telegram.org/bot<redacted>/getMe)"
    );
    assert_eq!(scrub("a b a".to_string(), "a"), "<redacted> b <redacted>");
}

#[test]
fn without_a_token_nothing_is_redacted() {
    assert_eq!(scrub("as it is".to_string(), ""), "as it is");
    assert_eq!(scrub("as it is".to_string(), "xyz"), "as it is");
}

#[test]
fn redaction_is_what_the_standard_library_does() {
    for msg in ["", "aaaa", "aabaab", "xaax", "ab", "<redacted>"] {
        for token in ["a", "aa", "aab", "b", "redacted", "zzzzzz"] {
            assert_eq!(scrub(msg.to_string(), token), msg.replace(token, "<redacted>"));
        }
    }
}
