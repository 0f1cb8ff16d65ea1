use mdviz::number::{decimal_string, format_size};

/// The size text as the viewer has always written it, with floats.
fn reference_size(bytes: u64) -> String {
    if bytes < 1024 {
        format!("{} B", bytes)
    } else if bytes < 1024 * 1024 {
        format!("{:.1} KB", bytes as f64 / 1024.0)
    } else {
        format!("{:.1} MB", bytes as f64 / (1024.0 * 1024.0))
    }
}

#[test]
fn format_size_units() {
    assert_eq!(format_size(0), "0 B");
    assert_eq!(format_size(1023), "1023 B");
    assert_eq!(format_size(1024), "1.0 KB");
    assert_eq!(format_size(1536), "1.5 KB");
    assert_eq!(format_size(1024 * 1024), "1.0 MB");
    assert_eq!(format_size(1048575), "1024.0 KB");
}

#[test]
fn format_size_matches_float_formatting_at_ties() {
    // 1280 bytes is exactly 1.25 KB, 1.25 * 2^20 bytes exactly 1.25 MB.
    for b in [1280u64, 1280 + 1024 * 2, 1310720, 3932160, 1024 * 1024 + 52428 * 2] {
        assert_eq!(format_size(b), reference_size(b), "bytes = {}", b);
    }
}

#[test]
fn format_size_matches_float_formatting_for_large_values() {
    let big = [
        (1u64 << 53) - 1,
        1u64 << 53,
        (1u64 << 53) + 1,
        (1u64 << 53) + 3,
        (1u64 << 54) - 1,
        u64::MAX,
        u64::MAX - 1024,
        1u64 << 63,
        (1u64 << 63) + (1u64 << 10) + 1,
    ];
    for b in big {
        assert_eq!(format_size(b), reference_size(b), "bytes = {}", b);
    }
}

#[test]
fn format_size_matches_float_formatting_on_a_sweep() {
    let mut x: u64 = 12345;
    for i in 0..200000u64 {
        x = x.wrapping_mul(6364136223846793005).wrapping_add(1442695040888963407);
        let b = match i % 4 {
            0 => x % 2048,
            1 => x % (4 * 1024 * 1024),
            2 => x >> (i % 64),
            _ => i * 52 + 1000,
        };
        assert_eq!(format_size(b), reference_size(b), "bytes = {}", b);
    }
}

#[test]
fn decimal_string_examples() {
    assert_eq!(decimal_string(0), "0");
    assert_eq!(decimal_string(7), "7");
    assert_eq!(decimal_string(20100), "20100");
    assert_eq!(decimal_string(u128::MAX), u128::MAX.to_string());
}
