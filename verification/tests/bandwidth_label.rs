use streamkeep::bandwidth::mbps_tenths_of;

fn printed_tenths(bits: u64) -> u64 {
    let text = format!("{:.1}", bits as f64 / 1_000_000.0);
    text.replace('.', "").parse().expect("digits")
}

#[test]
fn tenths_of_round_values() {
    assert_eq!(mbps_tenths_of(2_400_000), 24);
    assert_eq!(mbps_tenths_of(1_000_000), 10);
    assert_eq!(mbps_tenths_of(1), 0);
    assert_eq!(mbps_tenths_of(99_999), 1);
}

#[test]
fn halves_follow_the_floating_point_value() {
    // 0.15 and 1.45 lie just below the half as doubles, 2.45 just above;
    // 0.25 and 0.75 are exact halves and go to the even tenth.
    assert_eq!(mbps_tenths_of(150_000), 1);
    assert_eq!(mbps_tenths_of(1_450_000), 14);
    assert_eq!(mbps_tenths_of(2_450_000), 25);
    assert_eq!(mbps_tenths_of(250_000), 2);
    assert_eq!(mbps_tenths_of(750_000), 8);
}

#[test]
fn matches_the_printed_double_on_every_half() {
    let mut bits: u64 = 50_000;
    while bits < 2_000_000_000 {
        assert_eq!(mbps_tenths_of(bits), printed_tenths(bits), "bits {bits}");
        bits += 100_000;
    }
}

#[test]
fn matches_the_printed_double_on_a_spread_of_values() {
    let mut bits: u64 = 1;
    while bits < 50_000_000 {
        assert_eq!(mbps_tenths_of(bits), printed_tenths(bits), "bits {bits}");
        bits += 997;
    }
}

#[test]
fn matches_the_printed_double_on_huge_values() {
    let samples: [u64; 8] = [
        u64::MAX,
        u64::MAX - 1,
        1 << 53,
        (1 << 53) + 1,
        (1 << 63) + 12_345,
        9_007_199_254_740_993,
        4_503_599_627_370_497,
        18_014_398_509_481_985,
    ];
    for bits in samples {
        assert_eq!(mbps_tenths_of(bits), printed_tenths(bits), "bits {bits}");
    }
    let mut bits: u64 = 1 << 40;
    while bits < u64::MAX / 3 {
        assert_eq!(mbps_tenths_of(bits), printed_tenths(bits), "bits {bits}");
        assert_eq!(mbps_tenths_of(bits + 50_000), printed_tenths(bits + 50_000), "bits {bits}");
        bits = bits / 2 * 3 + 7;
    }
}
