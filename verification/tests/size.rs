use git_warden::size::format_bytes;

#[test]
fn format_bytes_cases() {
    assert_eq!(format_bytes(512), "512 B");
    assert_eq!(format_bytes(1024), "1.0 KB");
    assert_eq!(format_bytes(1536), "1.5 KB");
    assert_eq!(format_bytes(1024 * 1024), "1.0 MB");
    assert_eq!(format_bytes(1024 * 1024 * 1024), "1.0 GB");
}

#[test]
fn format_bytes_matches_float_formatting() {
    let samples: Vec<i64> = vec![
        -5,
        0,
        1023,
        1025,
        1280,
        1331,
        1843,
        2047,
        10 * 1024 - 1,
        1_048_575,
        5_000_000_000,
        (1 << 53) + 1,
        (1 << 53) + 3,
        1 << 60,
        i64::MAX,
    ];
    for b in samples {
        let expected = if b < 1024 {
            format!("{b} B")
        } else {
            let mut div: i64 = 1024;
            let mut exp = 0usize;
            let mut n = b / 1024;
            while n >= 1024 {
                div *= 1024;
                exp += 1;
                n /= 1024;
            }
            let units = ['K', 'M', 'G', 'T', 'P', 'E'];
            format!("{:.1} {}B", b as f64 / div as f64, units[exp])
        };
        assert_eq!(format_bytes(b), expected, "for {b}");
    }
}
