use m3u8downloader::size::byte_convert;

/// The same text by way of floating-point numbers.
fn by_floating_point(size: u64) -> String {
    if size < 1024 {
        return format!("{size} B");
    }
    if size == 1024 {
        return String::from("1 KB");
    }
    let units = ["B", "KB", "MB", "GB", "TB"];
    let mut value = size as f64;
    let mut unit = 0;
    while value > 1024.0 && unit < units.len() - 1 {
        value /= 1024.0;
        unit += 1;
    }
    format!("{:.2} {}", value, units[unit])
}

#[test]
fn sizes_below_a_kilobyte_are_exact() {
    assert_eq!(byte_convert(0), "0 B");
    assert_eq!(byte_convert(9), "9 B");
    assert_eq!(byte_convert(10), "10 B");
    assert_eq!(byte_convert(1023), "1023 B");
}

#[test]
fn one_kilobyte_has_no_decimals() {
    assert_eq!(byte_convert(1024), "1 KB");
}

#[test]
fn sizes_above_have_two_decimals() {
    assert_eq!(byte_convert(1025), "1.00 KB");
    assert_eq!(byte_convert(1536), "1.50 KB");
    assert_eq!(byte_convert(5 * 1024 * 1024 + 300 * 1024), "5.29 MB");
    assert_eq!(byte_convert(3 * 1024 * 1024 * 1024 / 2), "1.50 GB");
    assert_eq!(byte_convert(7 * 1024 * 1024 * 1024 * 1024), "7.00 TB");
}

#[test]
fn a_unit_reaches_up_to_1024() {
    assert_eq!(byte_convert(1024 * 1024), "1024.00 KB");
    assert_eq!(byte_convert(1024 * 1024 + 1), "1.00 MB");
    assert_eq!(byte_convert(1024 * 1024 * 1024), "1024.00 MB");
    assert_eq!(byte_convert(1024 * 1024 * 1024 * 1024), "1024.00 GB");
}

#[test]
fn halves_are_rounded_to_even() {
    // 1.125 and 1.375 of a kilobyte lie halfway between two hundredths.
    assert_eq!(byte_convert(1152), "1.12 KB");
    assert_eq!(byte_convert(1408), "1.38 KB");
    assert_eq!(byte_convert(1152), by_floating_point(1152));
    assert_eq!(byte_convert(1408), by_floating_point(1408));
}

#[test]
fn the_greatest_size() {
    assert_eq!(byte_convert(u64::MAX), "16777216.00 TB");
    assert_eq!(byte_convert(u64::MAX), by_floating_point(u64::MAX));
}

#[test]
fn sizes_agree_with_floating_point() {
    let mut seed: u64 = 0x9e37_79b9_7f4a_7c15;
    for bits in 1..=64u32 {
        for _ in 0..2000 {
            seed ^= seed << 13;
            seed ^= seed >> 7;
            seed ^= seed << 17;
            let size = seed >> (64 - bits);
            assert_eq!(byte_convert(size), by_floating_point(size), "{size}");
        }
    }
}

#[test]
fn sizes_around_powers_of_two_agree_with_floating_point() {
    for bits in 10..64u32 {
        for eighths in 8..16u64 {
            let around = (1u64 << bits) / 8 * eighths;
            for size in around - 3..=around + 3 {
                assert_eq!(byte_convert(size), by_floating_point(size), "{size}");
            }
        }
    }
    for size in u64::MAX - 4096..=u64::MAX {
        assert_eq!(byte_convert(size), by_floating_point(size), "{size}");
    }
}
