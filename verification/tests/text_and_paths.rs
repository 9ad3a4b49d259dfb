use notekeeper::paths;
use notekeeper::text;
use std::path::Path;

#[test]
fn whitespace_is_what_unicode_says() {
    for u in 0..=0x10ffff_u32 {
        if let Some(c) = char::from_u32(u) {
            assert_eq!(text::is_whitespace(c), c.is_whitespace(), "U+{:04X}", u);
        }
    }
}

#[test]
fn trimming_is_what_the_standard_library_does() {
    let samples = ["", " ", "a", "  a b ", "\u{3000}x\u{2028}", "\tline\n", "..a..", "///", "a//"];
    for s in samples {
        assert_eq!(text::trim(s), s.trim());
        assert_eq!(text::trim_end_matches(s, '/'), s.trim_end_matches('/'));
        assert_eq!(text::trim_matches(s, '.'), s.trim_matches('.'));
        assert_eq!(text::is_blank(s), s.trim().is_empty());
    }
}

#[test]
fn numbers_are_written_in_decimal() {
    for n in [0u64, 7, 10, 99, 100, 8081, u64::MAX] {
        assert_eq!(text::decimal(n), n.to_string());
    }
    for n in [0i64, -1, 42, -1_000_000, i64::MIN, i64::MAX] {
        assert_eq!(text::decimal_i64(n), n.to_string());
    }
}

const PATHS: [&str; 22] = [
    "", "/", "//", ".", "..", "./", "../", "a", "a/", "a/b", "a/b/", "a//b", "/a", "/a/", "/a/b.md",
    "./a", "a/.", "a/..", "a/./b", "/./a", "notes/ideas.tar.gz", ".hidden",
];

#[test]
fn parents_are_what_the_standard_library_says() {
    for p in PATHS {
        let expected = Path::new(p).parent().map(|q| q.to_string_lossy().to_string());
        assert_eq!(paths::parent_dir(p), expected, "{:?}", p);
    }
}

#[test]
fn names_are_what_the_standard_library_says() {
    for p in PATHS {
        let expected = Path::new(p).file_name().map(|q| q.to_string_lossy().to_string());
        assert_eq!(paths::base_name(p), expected, "{:?}", p);
    }
}

#[test]
fn joins_are_what_the_standard_library_says() {
    for p in PATHS {
        for name in ["x.txt", "pending-1.json", "/abs", "", "a/b"] {
            let expected = Path::new(p).join(name).to_string_lossy().to_string();
            assert_eq!(paths::join(p, name), expected, "{:?} {:?}", p, name);
        }
    }
}

#[test]
fn extensions_are_what_the_standard_library_says() {
    for p in PATHS {
        for ext in ["tmp-1", "corrupt-20260625-143200", ""] {
            let expected = Path::new(p).with_extension(ext).to_string_lossy().to_string();
            assert_eq!(paths::with_extension(p, ext), expected, "{:?} {:?}", p, ext);
        }
    }
}

#[test]
fn absolute_paths_start_at_the_root() {
    for p in PATHS {
        assert_eq!(paths::is_absolute(p), Path::new(p).is_absolute(), "{:?}", p);
    }
}

#[test]
fn journals_lie_beside_the_status_file() {
    assert_eq!(paths::journal_path("/conf/status.json", "42"), "/conf/pending-42.json");
    assert_eq!(paths::journal_path("status.json", "42"), "pending-42.json");
    assert_eq!(paths::journal_path("/", "42"), "./pending-42.json");
    assert_ne!(paths::journal_path("/c/s.json", "a"), paths::journal_path("/c/s.json", "b"));
}

#[test]
fn files_are_saved_next_to_the_markdown_file() {
    assert_eq!(
        paths::resolve_save_dir("/Users/you/notes/ideas.md", None),
        "/Users/you/notes/attachments"
    );
    assert_eq!(paths::resolve_save_dir("ideas.md", None), "attachments");
    assert_eq!(paths::resolve_save_dir("/Users/you/ideas.md", Some("  ")), "/Users/you/attachments");
    assert_eq!(paths::resolve_save_dir("/Users/you/ideas.md", Some(" /files ")), "/files");
    assert_eq!(paths::resolve_save_dir("/", None), "attachments");
}

#[test]
fn directories_to_create() {
    assert_eq!(paths::dir_to_create("/a/b.md"), Some("/a".to_string()));
    assert_eq!(paths::dir_to_create("b.md"), None);
    assert_eq!(paths::dir_to_create("/"), None);
}

#[test]
fn corrupt_settings_are_moved_aside() {
    assert_eq!(
        paths::corrupt_backup_path("/conf/bots.json", "20260625-143200"),
        "/conf/bots.json.corrupt-20260625-143200"
    );
    assert_eq!(paths::corrupt_backup_path("bots.json", "1"), "bots.json.corrupt-1");
    assert_eq!(paths::corrupt_backup_path("conf/bots/", "1"), "conf/bots.corrupt-1");
}
