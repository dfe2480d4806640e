use dispatch::units::format_bytes;

const UNITS: &[&str] = &["B", "KiB", "MiB", "GiB", "TiB", "PiB", "EiB", "ZiB", "YiB"];

fn float_reference(bytes: u64) -> String {
    let mut size = bytes;
    let mut index = 0;
    while size >= 1024 && index < UNITS.len() - 1 {
        size /= 1024;
        index += 1;
    }
    let size_f = (bytes as f64) / (1024_f64.powi(index as i32));
    format!("{:.1} {}", size_f, UNITS[index])
}

#[test]
fn format_bytes_small_values() {
    assert_eq!(format_bytes(0), "0.0 B");
    assert_eq!(format_bytes(1), "1.0 B");
    assert_eq!(format_bytes(1023), "1023.0 B");
    assert_eq!(format_bytes(1024), "1.0 KiB");
    assert_eq!(format_bytes(1536), "1.5 KiB");
}

#[test]
fn format_bytes_ties_round_to_even() {
    // 1.25 KiB and 1.75 KiB lie exactly between two tenths.
    assert_eq!(format_bytes(1280), "1.2 KiB");
    assert_eq!(format_bytes(1792), "1.8 KiB");
    assert_eq!(format_bytes(1024 * 1024 - 1), "1024.0 KiB");
}

#[test]
fn format_bytes_large_values() {
    assert_eq!(format_bytes(u64::MAX), "16.0 EiB");
    assert_eq!(format_bytes(1 << 60), "1.0 EiB");
    assert_eq!(format_bytes(5 * (1 << 30)), "5.0 GiB");
}

#[test]
fn format_bytes_matches_float_formatting() {
    let mut samples: Vec<u64> = Vec::new();
    for shift in 0..64u32 {
        let p = 1u64 << shift;
        for d in [0u64, 1, 2, 3, 5, 7, 100, 101, 127, 128, 129] {
            samples.push(p.wrapping_add(d));
            samples.push(p.wrapping_sub(d));
            samples.push(p.wrapping_mul(3).wrapping_add(d));
            samples.push(p / 4 * 5);
            samples.push(p / 8 * 9);
        }
    }
    let mut x: u64 = 0x9E37_79B9_7F4A_7C15;
    for _ in 0..20000 {
        x ^= x << 13;
        x ^= x >> 7;
        x ^= x << 17;
        samples.push(x >> (x % 64));
    }
    for b in samples {
        assert_eq!(format_bytes(b), float_reference(b), "bytes = {}", b);
    }
}
