use notekeeper::clock::LocalTime;
use notekeeper::filenames;
use notekeeper::filenames::DestSearch;
use notekeeper::ids;

fn moment() -> LocalTime {
    LocalTime { year: 2026, month: 6, day: 25, hour: 14, minute: 32, second: 0 }
}

#[test]
fn names_are_sanitized() {
    assert_eq!(filenames::sanitize_filename("report.pdf"), "report.pdf");
    assert_eq!(filenames::sanitize_filename("../../etc/passwd"), "passwd");
    assert_eq!(filenames::sanitize_filename("C:\\Users\\me\\a b.txt"), "a b.txt");
    assert_eq!(filenames::sanitize_filename("what?*<>.txt"), "what____.txt");
    assert_eq!(filenames::sanitize_filename("  .hidden.  "), "hidden");
    assert_eq!(filenames::sanitize_filename("größe-1_2.md"), "größe-1_2.md");
    assert_eq!(filenames::sanitize_filename("a\u{301}"), "a_");
}

#[test]
fn names_without_anything_safe_are_file() {
    assert_eq!(filenames::sanitize_filename(""), "file");
    assert_eq!(filenames::sanitize_filename(".."), "file");
    assert_eq!(filenames::sanitize_filename("a/"), "file");
    assert_eq!(filenames::sanitize_filename(" \t "), "_");
    assert_eq!(filenames::sanitize_filename("   "), "file");
}

#[test]
fn downloads_fall_back_to_the_reported_name() {
    let given = Some("photo.jpg".to_string());
    assert_eq!(filenames::download_name(&given, "documents/file_1.bin"), "photo.jpg");
    assert_eq!(filenames::download_name(&None, "documents/file_1.bin"), "file_1.bin");
    assert_eq!(filenames::download_name(&None, "documents\\file_2"), "file_2");
    assert_eq!(filenames::download_name(&None, "documents/"), "file");
    assert_eq!(filenames::download_name(&None, ""), "file");
    assert_eq!(filenames::download_name(&Some(String::new()), "x/y"), "");
}

#[test]
fn the_counter_goes_before_the_extension() {
    let mut s = DestSearch::at(&moment(), "report.tar.gz");
    assert_eq!(s.candidate("/a"), "/a/20260625-143200_report.tar.gz");
    s.advance();
    assert_eq!(s.candidate("/a"), "/a/20260625-143200_report.tar-1.gz");
    s.advance();
    assert_eq!(s.candidate("/a"), "/a/20260625-143200_report.tar-2.gz");
}

#[test]
fn names_without_an_extension_are_counted_at_the_end() {
    let mut s = DestSearch::at(&moment(), "notes");
    assert_eq!(s.candidate("dir"), "dir/20260625-143200_notes");
    for _ in 0..12 {
        s.advance();
    }
    assert_eq!(s.candidate("dir"), "dir/20260625-143200_notes-12");
}

#[test]
fn a_free_name_is_found() {
    let mut s = DestSearch::at(&moment(), "a.txt");
    let mut taken: Vec<String> = Vec::new();
    for _ in 0..50 {
        let c = s.candidate("/d");
        assert!(!taken.contains(&c));
        assert!(c.starts_with("/d/"));
        assert!(!c[3..].contains('/'));
        taken.push(c);
        s.advance();
    }
}

#[test]
fn saved_files_are_stamped_now() {
    let s = DestSearch::begin("x.bin");
    let c = s.candidate("d");
    assert_eq!(c.len(), "d/20260625-143200_x.bin".len());
    assert!(c.starts_with("d/2"));
    assert!(c.ends_with("_x.bin"));
}

#[test]
fn ids_are_random_uuids() {
    let a = ids::new_id();
    let b = ids::new_id();
    assert_ne!(a, b);
    for id in [a, b] {
        let c: Vec<char> = id.chars().collect();
        assert_eq!(c.len(), 36);
        for i in 0..36 {
            if i == 8 || i == 13 || i == 18 || i == 23 {
                assert_eq!(c[i], '-');
            } else {
                assert!(c[i].is_ascii_digit() || ('a'..='f').contains(&c[i]));
            }
        }
        assert_eq!(c[14], '4');
        assert!(matches!(c[19], '8' | '9' | 'a' | 'b'));
    }
}

#[test]
fn temporary_files_are_siblings() {
    let a = ids::temp_path("/conf/bots.json");
    let b = ids::temp_path("/conf/bots.json");
    assert_ne!(a, b);
    assert!(a.starts_with("/conf/bots.tmp-"));
    assert_eq!(a.len(), "/conf/bots.tmp-".len() + 36);
}

#[test]
fn saved_files_lie_directly_in_their_directory() {
    for dir in ["/files", "/files/", "files", "./", "", "/"] {
        let s = DestSearch::at(&moment(), "../../x/y\\..\\evil name?.txt");
        let path = s.candidate(dir);
        assert!(path.ends_with("20260625-143200_evil name_.txt"));
        let parent = std::path::Path::new(&path).parent().unwrap();
        assert_eq!(parent, std::path::Path::new(dir));
    }
}

#[test]
fn sanitizing_twice_is_sanitizing_once() {
    for name in ["a/b?c.txt", "..x..", "", "größe", " a b ", "what?*<>.txt"] {
        let once = filenames::sanitize_filename(name);
        assert_eq!(filenames::sanitize_filename(&once), once);
    }
    // White space behind a dot is left by the first pass and goes with the next.
    assert_eq!(filenames::sanitize_filename(". a"), " a");
    assert_eq!(filenames::sanitize_filename(" a"), "a");
}

#[test]
fn no_white_space_but_the_space_is_kept() {
    for u in 0..=0x10ffff_u32 {
        if let Some(c) = char::from_u32(u) {
            if c.is_whitespace() && c != ' ' {
                assert_eq!(filenames::sanitize_filename(&format!("a{}b", c)), "a_b", "U+{:04X}", u);
            }
        }
    }
}

#[test]
fn ascii_is_kept_by_letters_and_digits() {
    for u in 0..0x80_u8 {
        let c = u as char;
        let kept = c.is_ascii_alphanumeric() || matches!(c, '.' | '-' | '_' | ' ');
        if c != '/' && c != '\\' {
            let expected = if kept { format!("a{}b", c) } else { "a_b".to_string() };
            assert_eq!(filenames::sanitize_filename(&format!("a{}b", c)), expected);
        }
    }
}
