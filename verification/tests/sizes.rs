use notekeeper::size::human_size;

fn by_floats(bytes: i64) -> String {
    if bytes <= 0 {
        return "unknown size".to_string();
    }
    let kb: f64 = 1000.0;
    let mb: f64 = kb * 1000.0;
    let gb: f64 = mb * 1000.0;
    let b = bytes as f64;
    if b >= gb {
        format!("{:.1} GB", b / gb)
    } else if b >= mb {
        format!("{:.1} MB", b / mb)
    } else if b >= kb {
        format!("{:.0} KB", b / kb)
    } else {
        format!("{} B", bytes)
    }
}

#[test]
fn sizes_at_the_unit_borders() {
    assert_eq!(human_size(-5), "unknown size");
    assert_eq!(human_size(0), "unknown size");
    assert_eq!(human_size(1), "1 B");
    assert_eq!(human_size(999), "999 B");
    assert_eq!(human_size(1_000), "1 KB");
    assert_eq!(human_size(1_499), "1 KB");
    assert_eq!(human_size(1_500), "2 KB");
    assert_eq!(human_size(2_500), "2 KB");
    assert_eq!(human_size(999_999), "1000 KB");
    assert_eq!(human_size(1_000_000), "1.0 MB");
    assert_eq!(human_size(1_150_000), "1.1 MB");
    assert_eq!(human_size(1_250_000), "1.2 MB");
    assert_eq!(human_size(1_350_000), "1.4 MB");
    assert_eq!(human_size(20_000_001), "20.0 MB");
    assert_eq!(human_size(999_999_999), "1000.0 MB");
    assert_eq!(human_size(1_000_000_000), "1.0 GB");
    assert_eq!(human_size(i64::MAX), "9223372036.9 GB");
}

#[test]
fn sizes_round_as_doubles_do() {
    let mut seed: u64 = 0x9e37_79b9_7f4a_7c15;
    for _ in 0..200_000 {
        seed ^= seed << 13;
        seed ^= seed >> 7;
        seed ^= seed << 17;
        let shift = (seed >> 57) % 63;
        let bytes = ((seed & 0x7fff_ffff_ffff_ffff) >> shift) as i64;
        assert_eq!(human_size(bytes), by_floats(bytes), "{}", bytes);
    }
    for k in 0..20_000_i64 {
        // Decimal ties, where the nearest double decides.
        for bytes in [k * 50_000, k * 50_000_000, k * 500, k * 50_000 + 1] {
            assert_eq!(human_size(bytes), by_floats(bytes), "{}", bytes);
        }
    }
    for bytes in [
        (1_i64 << 53) - 1,
        1 << 53,
        (1 << 53) + 1,
        (1 << 54) + 2,
        (1 << 54) + 6,
        (1 << 62) + 512,
        (1 << 62) + 1536,
        i64::MAX - 512,
    ] {
        assert_eq!(human_size(bytes), by_floats(bytes), "{}", bytes);
    }
}

#[test]
fn a_file_over_twenty_megabytes_does_not_read_as_less() {
    for bytes in [20_000_000, 20_000_001, 20_049_999, 20_050_000, 20_971_520] {
        let shown = human_size(bytes);
        assert!(shown.starts_with("20.") || shown.starts_with("21."), "{}", shown);
    }
}
