use spawningpool::clock::{
    civil, civil_from_days, datestamp, log_path, rfc3339_millis, run_id, sanitize,
};

#[test]
fn rfc3339_formats_the_epoch() {
    assert_eq!(rfc3339_millis(0, 0), "1970-01-01T00:00:00.000Z");
}

#[test]
fn rfc3339_carries_millis_and_time_of_day() {
    // 1 second + 500 ms past the epoch.
    assert_eq!(rfc3339_millis(1, 500), "1970-01-01T00:00:01.500Z");
}

#[test]
fn rfc3339_handles_a_leap_day() {
    // 1582934400 = 2020-02-29T00:00:00Z.
    assert_eq!(rfc3339_millis(1_582_934_400, 0), "2020-02-29T00:00:00.000Z");
}

#[test]
fn datestamp_is_filesystem_safe_and_compact() {
    assert_eq!(datestamp(1_582_934_400), "20200229T000000Z");
}

#[test]
fn log_path_combines_datestamp_and_sanitized_root() {
    assert_eq!(
        log_path(1_582_934_400, "my/weird name"),
        "logs/20200229T000000Z-my_weird_name.ndjson"
    );
}

#[test]
fn run_id_is_eight_hex_chars() {
    let nanos = std::time::SystemTime::now()
        .duration_since(std::time::UNIX_EPOCH)
        .map_or(0, |d| d.as_nanos());
    let id = run_id(nanos, 4242);
    assert_eq!(id.len(), 8);
    assert!(id.chars().all(|c| c.is_ascii_hexdigit()));
}

#[test]
fn run_id_folds_clock_and_pid() {
    // mixed = 0x1234_5678 ^ (1 << 32); folded = low ^ high = 0x1234_5679.
    assert_eq!(run_id(0x1234_5678, 1), "12345679");
    assert_eq!(run_id(0, 0), "00000000");
    assert_eq!(run_id(0xffff_ffff, 0), "ffffffff");
}

#[test]
fn civil_dates_of_day_counts() {
    assert_eq!(civil_from_days(0), (1970, 1, 1));
    assert_eq!(civil_from_days(-1), (1969, 12, 31));
    assert_eq!(civil_from_days(18_321), (2020, 2, 29));
    assert_eq!(civil_from_days(18_322), (2020, 3, 1));
    assert_eq!(civil_from_days(11_016), (2000, 2, 29));
    assert_eq!(civil_from_days(-719_468), (0, 3, 1));
}

#[test]
fn civil_breaks_an_instant_into_parts() {
    // 2026-06-19T14:23:01.042Z
    assert_eq!(civil(1_781_878_981, 42), (2026, 6, 19, 14, 23, 1, 42));
    assert_eq!(
        rfc3339_millis(1_781_878_981, 42),
        "2026-06-19T14:23:01.042Z"
    );
}

#[test]
fn sanitize_keeps_safe_characters_and_names_an_empty_root() {
    assert_eq!(sanitize("wf-1.v2_x"), "wf-1.v2_x");
    assert_eq!(sanitize("a b/c\u{e9}"), "a_b_c_");
    assert_eq!(sanitize(""), "run");
}
