//! Sizes, rates and remaining times.

use rust_download::format::{format_eta, format_size, format_speed};

fn by_floats(bytes: u64) -> String {
    let kb: u64 = 1024;
    let mb: u64 = 1024 * kb;
    let gb: u64 = 1024 * mb;
    if bytes >= gb {
        format!("{:.2} GB", bytes as f64 / gb as f64)
    } else if bytes >= mb {
        format!("{:.2} MB", bytes as f64 / mb as f64)
    } else if bytes >= kb {
        format!("{:.2} KB", bytes as f64 / kb as f64)
    } else {
        format!("{} B", bytes)
    }
}

#[test]
fn sizes() {
    assert_eq!(format_size(0), "0 B");
    assert_eq!(format_size(1023), "1023 B");
    assert_eq!(format_size(1024), "1.00 KB");
    assert_eq!(format_size(1536), "1.50 KB");
    assert_eq!(format_size(1_048_575), "1024.00 KB");
    assert_eq!(format_size(1_048_576), "1.00 MB");
    assert_eq!(format_size(2 * 1024 * 1024), "2.00 MB");
    assert_eq!(format_size(1_073_741_824), "1.00 GB");
    assert_eq!(format_size(u64::MAX), "17179869184.00 GB");
}

#[test]
fn ties_go_to_the_even_digit() {
    assert_eq!(format_size(1024 + 128), "1.12 KB");
    assert_eq!(format_size(1024 + 384), "1.38 KB");
    assert_eq!(format_size(1_048_576 + 131_072), "1.12 MB");
}

#[test]
fn small_sizes_agree_with_double_precision() {
    for bytes in 0..200_000u64 {
        assert_eq!(format_size(bytes), by_floats(bytes));
    }
}

#[test]
fn large_sizes_agree_with_double_precision() {
    let mut bytes: u64 = 1;
    let mut state: u64 = 88172645463325252;
    for shift in 0..64u32 {
        for near in [-2i64, -1, 0, 1, 2] {
            let n = (1u64 << shift).wrapping_add(near as u64);
            assert_eq!(format_size(n), by_floats(n), "{}", n);
        }
        for _ in 0..500 {
            state ^= state << 13;
            state ^= state >> 7;
            state ^= state << 17;
            bytes = bytes.wrapping_mul(6364136223846793005).wrapping_add(state) >> (shift % 60);
            assert_eq!(format_size(bytes), by_floats(bytes), "{}", bytes);
        }
    }
    assert_eq!(format_size((1 << 53) + 1), by_floats((1 << 53) + 1));
    assert_eq!(format_size((1 << 54) + 3), by_floats((1 << 54) + 3));
}

#[test]
fn shown_sizes_are_near() {
    for bytes in [1025u64, 5_000, 123_456, 987_654] {
        let shown = format_size(bytes);
        let number: f64 = shown[..shown.len() - 3].parse().unwrap();
        assert!((number - bytes as f64 / 1024.0).abs() <= 0.005 + 1e-9);
    }
    let gb: u128 = 1 << 30;
    for bytes in [1u64 << 53, (1 << 53) + 1, (1 << 60) + 777, u64::MAX - 1025, u64::MAX] {
        let shown = format_size(bytes);
        let (whole, part) = shown[..shown.len() - 3].split_once('.').unwrap();
        let hundredths: u128 = whole.parse::<u128>().unwrap() * 100 + part.parse::<u128>().unwrap();
        let exact = bytes as u128 * 100;
        assert!((hundredths * gb).abs_diff(exact) * 100 <= 51 * gb);
    }
}

#[test]
fn rates() {
    assert_eq!(format_speed(0), "0 B/s");
    assert_eq!(format_speed(1536), "1.50 KB/s");
    assert_eq!(format_speed(3 * 1024 * 1024), "3.00 MB/s");
}

#[test]
fn remaining_times() {
    assert_eq!(format_eta(1000, 0), "∞");
    assert_eq!(format_eta(0, 10), "00:00");
    assert_eq!(format_eta(9, 10), "00:00");
    assert_eq!(format_eta(59, 1), "00:59");
    assert_eq!(format_eta(60, 1), "01:00");
    assert_eq!(format_eta(3599, 1), "59:59");
    assert_eq!(format_eta(3600, 1), "01:00:00");
    assert_eq!(format_eta(100 * 3600 + 61, 1), "100:01:01");
}

#[test]
fn remaining_times_add_up() {
    for total in [1u64, 59, 60, 61, 3599, 3600, 3661, 86_399, 360_000] {
        let shown = format_eta(total * 7, 7);
        let sum = shown.split(':').fold(0u64, |sum, part| sum * 60 + part.parse::<u64>().unwrap());
        assert_eq!(sum, total);
    }
}
