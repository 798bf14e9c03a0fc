use dynamic_island::sysinfo::{format_speed, get_system_stats, total_octets, NetworkSampler};

fn float_format(bytes: u64) -> String {
    if bytes < 1024 {
        format!("{} B/s", bytes)
    } else if bytes < 1024 * 1024 {
        format!("{:.1} KB/s", bytes as f64 / 1024.0)
    } else {
        format!("{:.1} MB/s", bytes as f64 / (1024.0 * 1024.0))
    }
}

#[test]
fn format_speed_examples() {
    assert_eq!(format_speed(0), "0 B/s");
    assert_eq!(format_speed(1023), "1023 B/s");
    assert_eq!(format_speed(1024), "1.0 KB/s");
    assert_eq!(format_speed(1536), "1.5 KB/s");
    assert_eq!(format_speed(1024 + 256), "1.2 KB/s");
    assert_eq!(format_speed(1024 + 768), "1.8 KB/s");
    assert_eq!(format_speed(1048575), "1024.0 KB/s");
    assert_eq!(format_speed(1048576), "1.0 MB/s");
    assert_eq!(format_speed(3 * 1048576 + 524288), "3.5 MB/s");
}

#[test]
fn format_speed_matches_float_formatting() {
    for b in 0..70_000u64 {
        assert_eq!(format_speed(b), float_format(b), "bytes {}", b);
    }
    for b in (1_000_000u64..3_000_000).step_by(7) {
        assert_eq!(format_speed(b), float_format(b), "bytes {}", b);
    }
    let mut x: u64 = 0x9E37_79B9_7F4A_7C15;
    for _ in 0..200_000 {
        x ^= x << 13;
        x ^= x >> 7;
        x ^= x << 17;
        for shift in [0u32, 8, 16, 24, 40] {
            let b = x >> shift;
            assert_eq!(format_speed(b), float_format(b), "bytes {}", b);
        }
    }
    let edges = [
        u64::MAX,
        u64::MAX - 1,
        1u64 << 53,
        (1u64 << 53) + 1,
        (1u64 << 53) + 3,
        (1u64 << 54) + 2,
        (1u64 << 54) + 6,
        (1u64 << 63) + 1024,
        (1u64 << 63) + 3072,
    ];
    for b in edges {
        assert_eq!(format_speed(b), float_format(b), "bytes {}", b);
    }
}

#[test]
fn system_stats() {
    let s = get_system_stats(57, 2048, 100);
    assert_eq!(s.memory_percent, 57);
    assert_eq!(s.net_up_speed, "2.0 KB/s");
    assert_eq!(s.net_down_speed, "100 B/s");
}

#[test]
fn octet_totals() {
    assert_eq!(total_octets(&vec![]), (0, 0));
    assert_eq!(
        total_octets(&vec![(u32::MAX, 1), (u32::MAX, 2), (5, 3)]),
        (2 * u32::MAX as u64 + 5, 6)
    );
}

#[test]
fn sampler_first_reading_gives_zero() {
    let mut s = NetworkSampler::new();
    assert_eq!(s.sample(1000, Some((5000, 9000))), (0, 0));
    assert_eq!((s.prev_up, s.prev_down, s.prev_time), (5000, 9000, 1000));
}

#[test]
fn sampler_speeds_over_interval() {
    let mut s = NetworkSampler::new();
    s.sample(1000, Some((5000, 9000)));
    assert_eq!(s.sample(1002, Some((7001, 9000))), (1000, 0));
    // counter went back: zero
    assert_eq!(s.sample(1003, Some((10, 9100))), (0, 100));
    // clock did not advance: zero, but the reading is kept
    assert_eq!(s.sample(1003, Some((2000, 9500))), (0, 0));
    assert_eq!(s.prev_up, 2000);
    // table unreadable: zero, reading unchanged
    assert_eq!(s.sample(1010, None), (0, 0));
    assert_eq!((s.prev_up, s.prev_time), (2000, 1003));
}

#[test]
fn speed_never_exceeds_growth() {
    let mut s = NetworkSampler::new();
    s.sample(10, Some((0, 0)));
    let (up, down) = s.sample(13, Some((10, 2)));
    assert!(up * 3 <= 10);
    assert_eq!(up, 3);
    assert_eq!(down, 0);
}
