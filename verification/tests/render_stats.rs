use flint_render::format_count;

#[test]
fn format_count_small_numbers() {
    assert_eq!(format_count(0), "0");
    assert_eq!(format_count(42), "42");
    assert_eq!(format_count(999), "999");
}

#[test]
fn format_count_thousands() {
    assert_eq!(format_count(1000), "1.0K");
    assert_eq!(format_count(1234), "1.2K");
    assert_eq!(format_count(9999), "10.0K");
    assert_eq!(format_count(142_300), "142.3K");
}

#[test]
fn format_count_millions() {
    assert_eq!(format_count(1_000_000), "1.0M");
    assert_eq!(format_count(1_234_567), "1.2M");
    assert_eq!(format_count(48_000_000), "48.0M");
}

#[test]
fn format_count_ties_follow_binary_value() {
    // 1.25 is exact in binary: ties to even.
    assert_eq!(format_count(1250), "1.2K");
    // 1.35 is stored slightly above, 1.45 slightly below.
    assert_eq!(format_count(1350), "1.4K");
    assert_eq!(format_count(1450), "1.4K");
    assert_eq!(format_count(999_999), "1000.0K");
    assert_eq!(format_count(u32::MAX), "4295.0M");
}

fn float_rendering(n: u32) -> String {
    if n >= 1_000_000 {
        format!("{:.1}M", n as f64 / 1_000_000.0)
    } else if n >= 1_000 {
        format!("{:.1}K", n as f64 / 1_000.0)
    } else {
        format!("{}", n)
    }
}

#[test]
fn format_count_matches_float_rendering_below_a_million() {
    for n in 0..1_000_000u32 {
        assert_eq!(format_count(n), float_rendering(n), "n = {}", n);
    }
}

#[test]
fn format_count_matches_float_rendering_on_millions() {
    let mut n: u32 = 1_000_000;
    while n < 4_000_000_000 {
        assert_eq!(format_count(n), float_rendering(n), "n = {}", n);
        for d in [1u32, 49_999, 50_000, 50_001, 149_999, 150_000, 250_000, 350_000, 450_000] {
            let m = n.saturating_add(d);
            assert_eq!(format_count(m), float_rendering(m), "n = {}", m);
        }
        n += 977_777;
    }
    assert_eq!(format_count(u32::MAX), float_rendering(u32::MAX));
}
