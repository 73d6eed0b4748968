use system_monitor::format::{format_bytes, format_percentage};

/// Byte counts formatted in floating point, dividing by 1024 while the
/// value is at least 1024.
fn bytes_in_floating_point(bytes: u64) -> String {
    const UNITS: &[&str] = &["B", "KB", "MB", "GB", "TB"];
    let mut size = bytes as f64;
    let mut unit_index = 0;
    while size >= 1024.0 && unit_index < UNITS.len() - 1 {
        size /= 1024.0;
        unit_index += 1;
    }
    if unit_index == 0 {
        format!("{}{}", bytes, UNITS[unit_index])
    } else {
        format!("{:.1}{}", size, UNITS[unit_index])
    }
}

#[test]
fn bytes_below_a_kibibyte_are_plain() {
    assert_eq!(format_bytes(0), "0B");
    assert_eq!(format_bytes(7), "7B");
    assert_eq!(format_bytes(1023), "1023B");
}

#[test]
fn bytes_in_larger_units() {
    assert_eq!(format_bytes(1024), "1.0KB");
    assert_eq!(format_bytes(1536), "1.5KB");
    assert_eq!(format_bytes(1024 * 1024), "1.0MB");
    assert_eq!(format_bytes(5 * 1024 * 1024 * 1024), "5.0GB");
    assert_eq!(format_bytes(1024u64.pow(4)), "1.0TB");
    assert_eq!(format_bytes(1024u64.pow(5)), "1024.0TB");
    assert_eq!(format_bytes(u64::MAX), "16777216.0TB");
}

#[test]
fn bytes_round_half_to_even() {
    // 1.25 KB and 1.75 KB lie exactly half way between two tenths.
    assert_eq!(format_bytes(1280), "1.2KB");
    assert_eq!(format_bytes(1792), "1.8KB");
    // just below a unit, the rounding carries into four digits
    assert_eq!(format_bytes(1024 * 1024 - 1), "1024.0KB");
}

#[test]
fn bytes_match_floating_point_formatting() {
    let mut b: u64 = 0;
    while b < 300_000 {
        assert_eq!(format_bytes(b), bytes_in_floating_point(b), "at {b}");
        b += 1;
    }
    let mut x: u64 = 0x9E37_79B9_7F4A_7C15;
    for shift in 0..64 {
        for _ in 0..200 {
            x ^= x << 13;
            x ^= x >> 7;
            x ^= x << 17;
            let v = x >> shift;
            assert_eq!(format_bytes(v), bytes_in_floating_point(v), "at {v}");
        }
    }
    for k in 1..5u32 {
        let unit = 1024u64.pow(k);
        for tenth in 0..10240u64 {
            let v = unit / 20 * (2 * tenth + 1);
            assert_eq!(format_bytes(v), bytes_in_floating_point(v), "at {v}");
        }
    }
    // above 2^53 the count is rounded to a double first
    for v in [(1u64 << 53) + 1, (1u64 << 60) + 3, u64::MAX - 1, (1u64 << 63) + 1024] {
        assert_eq!(format_bytes(v), bytes_in_floating_point(v), "at {v}");
    }
}

/// The percentage computed in floating point.
fn percentage_in_floating_point(current: u64, total: u64) -> String {
    if total == 0 {
        "0.0%".to_string()
    } else {
        let percentage = (current as f64 / total as f64) * 100.0;
        format!("{percentage:.1}%")
    }
}

#[test]
fn percentages_match_floating_point() {
    for t in 0..700u64 {
        for c in 0..=t + 3 {
            assert_eq!(format_percentage(c, t), percentage_in_floating_point(c, t), "at {c}/{t}");
        }
    }
    let mut x: u64 = 0x2545_F491_4F6C_DD1D;
    for shift_c in (0..64).step_by(3) {
        for shift_t in (0..64).step_by(3) {
            for _ in 0..20 {
                x ^= x << 13;
                x ^= x >> 7;
                x ^= x << 17;
                let c = x >> shift_c;
                x ^= x << 13;
                x ^= x >> 7;
                x ^= x << 17;
                let t = x >> shift_t;
                assert_eq!(format_percentage(c, t), percentage_in_floating_point(c, t), "at {c}/{t}");
            }
        }
    }
    for (c, t) in [(u64::MAX, 1), (1, u64::MAX), (u64::MAX, u64::MAX), (u64::MAX - 1, u64::MAX), (3, 1 << 63)] {
        assert_eq!(format_percentage(c, t), percentage_in_floating_point(c, t), "at {c}/{t}");
    }
}

#[test]
fn percentages_near_ties_follow_floating_point() {
    // 23/80 is 28.75% exactly, but the quotient in floating point lies
    // just below it
    assert_eq!(format_percentage(23, 80), "28.7%");
    assert_eq!(format_percentage(49, 80), "61.3%");
    assert_eq!(format_percentage(1, 16), "6.2%");
}

#[test]
fn percentages() {
    assert_eq!(format_percentage(0, 0), "0.0%");
    assert_eq!(format_percentage(5, 0), "0.0%");
    assert_eq!(format_percentage(0, 10), "0.0%");
    assert_eq!(format_percentage(1, 2), "50.0%");
    assert_eq!(format_percentage(1, 3), "33.3%");
    assert_eq!(format_percentage(2, 3), "66.7%");
    assert_eq!(format_percentage(7, 7), "100.0%");
    assert_eq!(format_percentage(3, 2), "150.0%");
}
