use notekeeper::chunk::chunk_text;

fn reference(text: &str) -> Vec<String> {
    let limit = 4000;
    let mut chunks: Vec<String> = Vec::new();
    let mut cur = String::new();
    for line in text.split_inclusive('\n') {
        if line.len() > limit {
            if !cur.is_empty() {
                chunks.push(std::mem::take(&mut cur));
            }
            let mut rest = line;
            while rest.len() > limit {
                let mut idx = limit;
                while !rest.is_char_boundary(idx) {
                    idx -= 1;
                }
                chunks.push(rest[..idx].to_string());
                rest = &rest[idx..];
            }
            cur.push_str(rest);
            continue;
        }
        if cur.len() + line.len() > limit {
            chunks.push(std::mem::take(&mut cur));
        }
        cur.push_str(line);
    }
    if !cur.is_empty() {
        chunks.push(cur);
    }
    chunks
}

fn samples() -> Vec<String> {
    vec![
        String::new(),
        "one line".to_string(),
        "a\nb\nc\n".to_string(),
        "\n\n\n".to_string(),
        "x".repeat(4000),
        "x".repeat(4001),
        format!("{}\n", "x".repeat(3999)),
        format!("{}\n{}\n", "x".repeat(2500), "y".repeat(2500)),
        format!("short\n{}\nlast", "é".repeat(5000)),
        "😀".repeat(2500),
        format!("{}{}", "a", "😀".repeat(3000)),
        "- [2026-06-25 14:30] pick up dry cleaning\n".repeat(300),
    ]
}

#[test]
fn short_texts_are_one_message() {
    assert_eq!(chunk_text("hello\nworld"), vec!["hello\nworld".to_string()]);
    assert_eq!(chunk_text("").len(), 0);
}

#[test]
fn long_texts_are_cut_at_lines() {
    let a = format!("{}\n", "x".repeat(2500));
    let b = format!("{}\n", "y".repeat(2500));
    assert_eq!(chunk_text(&format!("{}{}", a, b)), vec![a, b]);
}

#[test]
fn long_lines_are_cut_between_characters() {
    let chunks = chunk_text(&format!("a{}", "😀".repeat(1500)));
    assert_eq!(chunks.len(), 2);
    assert_eq!(chunks[0].len(), 3997);
    assert_eq!(chunks[1].len(), 2004);
}

#[test]
fn chunks_add_up_and_fit() {
    for s in samples() {
        let chunks = chunk_text(&s);
        assert_eq!(chunks.concat(), s);
        for c in &chunks {
            assert!(!c.is_empty());
            assert!(c.len() <= 4000);
            assert!(c.encode_utf16().count() <= 4096);
        }
        assert_eq!(chunks, reference(&s));
    }
}
