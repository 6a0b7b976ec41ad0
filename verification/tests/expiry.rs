use paychat::chat::get_24h_expiry;

const NANO: u64 = 1_000_000_000;

#[test]
fn expiry_at_second_100() {
    // second 100 truncates to 60, plus 86_400 seconds -> second 86_460
    assert_eq!(get_24h_expiry(100 * NANO), 86_460 * NANO);
}

#[test]
fn expiry_on_exact_minute() {
    assert_eq!(get_24h_expiry(120 * NANO), (120 + 86_400) * NANO);
}

#[test]
fn expiry_at_zero() {
    assert_eq!(get_24h_expiry(0), 86_400 * NANO);
}

#[test]
fn expiry_ignores_subsecond_part() {
    // 100 s + 999_999_999 ns truncates to second 100, then to minute 60
    assert_eq!(get_24h_expiry(100 * NANO + 999_999_999), 86_460 * NANO);
}

#[test]
fn expiry_at_59_seconds() {
    assert_eq!(get_24h_expiry(59 * NANO), 86_400 * NANO);
}

#[test]
fn expiry_large_timestamp() {
    // seconds: 1_700_000_123 -> truncated 1_700_000_100 -> + 86_400
    let t = 1_700_000_123 * NANO + 456;
    assert_eq!(get_24h_expiry(t), (1_700_000_100 + 86_400) * NANO);
}
