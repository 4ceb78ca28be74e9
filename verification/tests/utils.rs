use symon::utils::{conv_b, conv_p, conv_t, div_round_half_even, hold_to_precision, unit_name, unit_of};

fn reference_text(bytes: u64) -> String {
    let n = bytes as f64;
    if bytes < 1024 {
        format!("{} B", bytes)
    } else if bytes < 1024u64.pow(2) {
        format!("{:.2} KB", n / 1024.0)
    } else if bytes < 1024u64.pow(3) {
        format!("{:.2} MB", n / 1024f64.powi(2))
    } else if bytes < 1024u64.pow(4) {
        format!("{:.2} GB", n / 1024f64.powi(3))
    } else {
        format!("{:.2} TB", n / 1024f64.powi(4))
    }
}

#[test]
fn percentage_of_nothing_is_zero() {
    assert_eq!(conv_p(0, 0), 0);
    assert_eq!(conv_p(0, 1), 0);
    assert_eq!(conv_p(0, u64::MAX), 0);
}

#[test]
fn percentage_is_rounded_down() {
    assert_eq!(conv_p(2000, 1000), 50);
    assert_eq!(conv_p(3, 1), 33);
    assert_eq!(conv_p(3, 2), 66);
    assert_eq!(conv_p(7, 7), 100);
    assert_eq!(conv_p(1, 0), 0);
}

#[test]
fn percentage_survives_large_counts() {
    assert_eq!(conv_p(u64::MAX, u64::MAX), 100);
    assert_eq!(conv_p(u64::MAX, u64::MAX / 2), 49);
    assert_eq!(conv_p(1, u64::MAX / 100), u64::MAX / 100 * 100);
    assert_eq!(conv_p(100, u64::MAX), u64::MAX);
}

#[test]
fn percentage_too_large_to_show_is_the_largest_number() {
    assert_eq!(conv_p(1, u64::MAX), u64::MAX);
    assert_eq!(conv_p(99, u64::MAX), u64::MAX);
    assert_eq!(conv_p(1, u64::MAX / 100 + 1), u64::MAX);
}

#[test]
fn bytes_below_one_kilobyte_are_plain() {
    assert_eq!(conv_b(0), "0 B");
    assert_eq!(conv_b(1), "1 B");
    assert_eq!(conv_b(1023), "1023 B");
}

#[test]
fn bytes_scale_at_each_power() {
    assert_eq!(conv_b(1024), "1.00 KB");
    assert_eq!(conv_b(1_048_576), "1.00 MB");
    assert_eq!(conv_b(1 << 30), "1.00 GB");
    assert_eq!(conv_b(1 << 40), "1.00 TB");
}

#[test]
fn bytes_just_below_a_power_round_up_in_the_smaller_unit() {
    assert_eq!(conv_b(1_048_575), "1024.00 KB");
    assert_eq!(conv_b((1 << 30) - 1), "1024.00 MB");
    assert_eq!(conv_b((1 << 40) - 1), "1024.00 GB");
}

#[test]
fn bytes_show_two_decimals() {
    assert_eq!(conv_b(1536), "1.50 KB");
    assert_eq!(conv_b(1030), "1.01 KB");
    assert_eq!(conv_b(1029), "1.00 KB");
    assert_eq!(conv_b(16_384_000 * 1024), "15.62 GB");
    assert_eq!(conv_b(500_107_608 * 1024), "476.94 GB");
}

#[test]
fn bytes_half_way_go_to_the_even_digit() {
    // 1152 / 1024 = 1.125, 1408 / 1024 = 1.375
    assert_eq!(conv_b(1152), "1.12 KB");
    assert_eq!(conv_b(1408), "1.38 KB");
}

#[test]
fn bytes_beyond_the_last_unit_stay_in_it() {
    assert_eq!(conv_b(1 << 50), "1024.00 TB");
    assert_eq!(conv_b(u64::MAX), "16777216.00 TB");
}

#[test]
fn bytes_agree_with_the_floating_point_rendering() {
    let mut samples: Vec<u64> = vec![
        0,
        1,
        1023,
        1024,
        1025,
        1152,
        1408,
        4096,
        123_456,
        1_048_575,
        1_048_576,
        5_000_000,
        (1 << 30) - 1,
        1 << 30,
        123_456_789_012,
        (1 << 40) - 1,
        1 << 40,
        (1 << 53) - 1,
        1 << 53,
        (1 << 53) + 1,
        (1 << 53) + 3,
        65537 * (1 << 37),
        65537 * (1 << 37) + 1,
        65537 * (1 << 37) + 2,
        65537 * (1 << 37) + 3,
        65539 * (1 << 37) - 1,
        (1 << 54) - 1,
        (1 << 60) + 12345,
        u64::MAX - 1024,
        u64::MAX - 1023,
        u64::MAX,
    ];
    let mut x: u64 = 0x9E37_79B9_7F4A_7C15;
    for _ in 0..20_000 {
        x ^= x << 13;
        x ^= x >> 7;
        x ^= x << 17;
        samples.push(x);
        samples.push(x >> (x % 64));
    }
    for bytes in samples {
        assert_eq!(conv_b(bytes), reference_text(bytes), "for {}", bytes);
    }
}

#[test]
fn unit_is_the_smallest_that_brings_the_value_below_1024() {
    let scale = [1u64, 1 << 10, 1 << 20, 1 << 30, 1 << 40];
    for bytes in [0u64, 1, 1023, 1024, 1 << 20, (1 << 20) - 1, 1 << 30, 1 << 40, (1 << 50) - 1] {
        let unit = unit_of(bytes) as usize;
        assert!(unit < 5);
        assert!(bytes / scale[unit] < 1024, "for {}", bytes);
        if unit > 0 {
            assert!(bytes / scale[unit - 1] >= 1024, "for {}", bytes);
        }
    }
    assert_eq!(unit_of(1 << 50), 4);
    assert_eq!(unit_of(u64::MAX), 4);
}

#[test]
fn unit_names() {
    assert_eq!(unit_name(0), "B");
    assert_eq!(unit_name(1), "KB");
    assert_eq!(unit_name(2), "MB");
    assert_eq!(unit_name(3), "GB");
    assert_eq!(unit_name(4), "TB");
}

#[test]
fn division_rounds_half_to_even() {
    assert_eq!(div_round_half_even(5, 2), 2);
    assert_eq!(div_round_half_even(7, 2), 4);
    assert_eq!(div_round_half_even(9, 4), 2);
    assert_eq!(div_round_half_even(11, 4), 3);
    assert_eq!(div_round_half_even(10, 4), 2);
    assert_eq!(div_round_half_even(14, 4), 4);
    assert_eq!(div_round_half_even(0, 7), 0);
}

#[test]
fn counts_are_held_to_53_bits() {
    assert_eq!(hold_to_precision(0), 0);
    assert_eq!(hold_to_precision((1 << 53) - 1), (1 << 53) - 1);
    assert_eq!(hold_to_precision(1 << 53), 1 << 53);
    assert_eq!(hold_to_precision((1 << 53) + 1), 1 << 53);
    assert_eq!(hold_to_precision((1 << 53) + 3), (1 << 53) + 4);
    assert_eq!(hold_to_precision(u64::MAX), 1u128 << 64);
    for bytes in [(1u64 << 53) + 1, (1 << 54) + 2, (1 << 54) + 6, u64::MAX - 1024, u64::MAX - 1023] {
        assert_eq!(hold_to_precision(bytes), (bytes as f64) as u128, "for {}", bytes);
    }
}

#[test]
fn span_counts_each_unit_over_the_whole_span() {
    assert_eq!(conv_t(0, 0), "0 days, 0 hours 0 minutes 0 seconds.");
    assert_eq!(conv_t(59, 999_999_999), "0 days, 0 hours 0 minutes 59 seconds.");
    assert_eq!(conv_t(86_400, 0), "1 days, 24 hours 1440 minutes 86400 seconds.");
    assert_eq!(conv_t(90_061, 5), "1 days, 25 hours 1501 minutes 90061 seconds.");
}

#[test]
fn span_at_the_limit() {
    assert_eq!(
        conv_t(9_223_372_036_854_775, 807_000_000),
        "106751991167 days, 2562047788015 hours 153722867280912 minutes 9223372036854775 seconds."
    );
}
