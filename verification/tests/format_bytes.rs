use green_linter::eco_checks::format_bytes;

fn fb(b: u64) -> String {
    format_bytes(b).iter().collect()
}

fn float_reference(b: u64) -> String {
    if b >= 1024 * 1024 * 1024 {
        format!("{:.1} GB", b as f64 / (1024.0 * 1024.0 * 1024.0))
    } else if b >= 1024 * 1024 {
        format!("{:.1} MB", b as f64 / (1024.0 * 1024.0))
    } else if b >= 1024 {
        format!("{:.1} KB", b as f64 / 1024.0)
    } else {
        format!("{} B", b)
    }
}

#[test]
fn bytes_below_one_kib() {
    assert_eq!(fb(0), "0 B");
    assert_eq!(fb(1), "1 B");
    assert_eq!(fb(1023), "1023 B");
}

#[test]
fn kib_mib_gib_values() {
    assert_eq!(fb(1024), "1.0 KB");
    assert_eq!(fb(1536), "1.5 KB");
    assert_eq!(fb(1024 * 1024), "1.0 MB");
    assert_eq!(fb(300 * 1024 * 1024), "300.0 MB");
    assert_eq!(fb(1024 * 1024 * 1024), "1.0 GB");
    assert_eq!(fb(551704957), "526.1 MB");
}

#[test]
fn tenths_round_like_float_formatting() {
    // 1280 bytes is exactly 1.25 KB: a tie between 1.2 and 1.3.
    assert_eq!(fb(1280), float_reference(1280));
    assert_eq!(fb(1024 * 1024 - 1), float_reference(1024 * 1024 - 1));
    for b in [1024u64, 1075, 1076, 1126, 1127, 1177, 1178, 1331, 1792, 2304, 10240 + 512, 1048575] {
        assert_eq!(fb(b), float_reference(b), "bytes = {}", b);
    }
}

#[test]
fn matches_float_formatting_on_a_sweep() {
    let mut b: u64 = 0;
    while b < 5_000_000 {
        assert_eq!(fb(b), float_reference(b), "bytes = {}", b);
        b += 37;
    }
    let mut g: u64 = 1 << 30;
    for _ in 0..2000 {
        assert_eq!(fb(g), float_reference(g), "bytes = {}", g);
        g = g.wrapping_mul(3).wrapping_add(12345) | (1 << 30);
    }
}

#[test]
fn large_values_follow_float_rounding() {
    for b in [
        (1u64 << 53) - 1,
        1u64 << 53,
        (1u64 << 53) + 1,
        (1u64 << 60) + 12345,
        u64::MAX,
        u64::MAX - 1024,
    ] {
        assert_eq!(fb(b), float_reference(b), "bytes = {}", b);
    }
}
