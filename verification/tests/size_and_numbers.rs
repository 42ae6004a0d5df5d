use about_sys::number::{parse_u64, u64_to_decimal};
use about_sys::size::format_bytes;

/// The formula the byte-count text follows, written with floating point.
fn float_formula(bytes: u64) -> String {
    if bytes == 0 {
        return "Unknown".to_string();
    }
    let units = ["B", "KB", "MB", "GB", "TB", "PB", "EB"];
    let mut val = bytes as f64;
    let mut idx = 0;
    while val >= 1024.0 && idx < units.len() - 1 {
        val /= 1024.0;
        idx += 1;
    }
    if idx == 0 {
        format!("{} B", bytes)
    } else {
        format!("{:.1} {}", val, units[idx])
    }
}

#[test]
fn format_bytes_zero_is_unknown() {
    assert_eq!(format_bytes(0), "Unknown");
}

#[test]
fn format_bytes_small_counts_are_exact() {
    assert_eq!(format_bytes(1), "1 B");
    assert_eq!(format_bytes(512), "512 B");
    assert_eq!(format_bytes(1023), "1023 B");
}

#[test]
fn format_bytes_units() {
    assert_eq!(format_bytes(1024), "1.0 KB");
    assert_eq!(format_bytes(1536), "1.5 KB");
    assert_eq!(format_bytes(1048576), "1.0 MB");
    assert_eq!(format_bytes(34359738368), "32.0 GB");
    assert_eq!(format_bytes(1099511627776), "1.0 TB");
    assert_eq!(format_bytes(1125899906842624), "1.0 PB");
    assert_eq!(format_bytes(1152921504606846976), "1.0 EB");
    assert_eq!(format_bytes(u64::MAX), "16.0 EB");
}

#[test]
fn format_bytes_rounds_up_to_next_whole() {
    // 1023.96 KB is written with one decimal as 1024.0 KB, staying in KB.
    assert_eq!(format_bytes(1048535), "1024.0 KB");
}

#[test]
fn format_bytes_tie_goes_to_even_digit() {
    // 2304 bytes is exactly 2.25 KB.
    assert_eq!(format_bytes(2304), float_formula(2304));
    assert_eq!(format_bytes(2304), "2.2 KB");
}

#[test]
fn format_bytes_matches_float_formula() {
    let mut samples: Vec<u64> = Vec::new();
    for b in 0..5000u64 {
        samples.push(b);
    }
    let mut x: u64 = 1;
    for _ in 0..64 {
        for d in [0u64, 1, 2, 3, 51, 52, 100, 1000, 12345] {
            samples.push(x.wrapping_add(d));
            samples.push(x.wrapping_sub(d));
            samples.push(x.wrapping_mul(3).wrapping_add(d));
            samples.push(x / 10 * 9 + d);
        }
        x = x.wrapping_mul(2);
    }
    let mut seed: u64 = 0x9e3779b97f4a7c15;
    for _ in 0..20000 {
        seed ^= seed << 13;
        seed ^= seed >> 7;
        seed ^= seed << 17;
        samples.push(seed >> (seed % 64));
    }
    for k in 1..7u32 {
        let unit = 1u64 << (10 * k);
        for t in 0..200u64 {
            samples.push(unit / 20 * (2 * t + 1));
            samples.push(unit + unit / 20 * (2 * t + 1));
        }
    }
    for b in samples {
        assert_eq!(format_bytes(b), float_formula(b), "bytes = {}", b);
    }
}

#[test]
fn parse_u64_accepts_what_std_accepts() {
    for s in [
        "0", "7", "+7", "0042", "18446744073709551615", "18446744073709551616", "", "+", "-1", "-0",
        " 1", "1 ", "12a", "٣", "++1", "99999999999999999999",
    ] {
        assert_eq!(parse_u64(s), s.parse::<u64>().ok(), "text = {:?}", s);
    }
}

#[test]
fn decimal_text_round_trip() {
    for n in [0u64, 1, 9, 10, 99, 100, 12345, u64::MAX] {
        let t = u64_to_decimal(n);
        assert_eq!(t, n.to_string());
        assert_eq!(parse_u64(&t), Some(n));
    }
}
