use bastion_executor::config::{
    low_watermark, parse_low_watermark, DEFAULT_LOW_WATERMARK, IDLE_DEADLINE_TICKS,
    LOAD_PERCENTILE, SOFT_CAP_FACTOR, THREAD_RECV_TIMEOUT_MS, TICK_INTERVAL_MS, WINDOW_LEN,
};

#[test]
fn default_low_watermark_is_two() {
    assert_eq!(DEFAULT_LOW_WATERMARK, 2);
    assert_eq!(low_watermark(None), 2);
}

#[test]
fn design_defaults() {
    assert_eq!(TICK_INTERVAL_MS, 200);
    assert_eq!(WINDOW_LEN, 61);
    assert_eq!(THREAD_RECV_TIMEOUT_MS, 100);
    assert_eq!(IDLE_DEADLINE_TICKS, 5);
    assert_eq!(SOFT_CAP_FACTOR, 10);
    assert_eq!(LOAD_PERCENTILE, 95);
}

#[test]
fn configured_eight_threads() {
    assert_eq!(parse_low_watermark("8"), Some(8));
    assert_eq!(low_watermark(Some("8")), 8);
}

#[test]
fn parses_plain_numbers() {
    assert_eq!(parse_low_watermark("0"), Some(0));
    assert_eq!(parse_low_watermark("2"), Some(2));
    assert_eq!(parse_low_watermark("16"), Some(16));
    assert_eq!(parse_low_watermark("1024"), Some(1024));
}

#[test]
fn accepts_leading_plus_and_zeros() {
    assert_eq!(parse_low_watermark("+5"), Some(5));
    assert_eq!(parse_low_watermark("007"), Some(7));
    assert_eq!(parse_low_watermark("+000"), Some(0));
    assert_eq!(
        parse_low_watermark("000000000000000000000000000000000000000012"),
        Some(12)
    );
}

#[test]
fn accepts_the_largest_number() {
    assert_eq!(parse_low_watermark("18446744073709551615"), Some(u64::MAX));
}

#[test]
fn rejects_numbers_that_do_not_fit() {
    assert_eq!(parse_low_watermark("18446744073709551616"), None);
    assert_eq!(parse_low_watermark("18446744073709551620"), None);
    assert_eq!(parse_low_watermark("99999999999999999999999"), None);
}

#[test]
fn rejects_what_is_no_number() {
    assert_eq!(parse_low_watermark(""), None);
    assert_eq!(parse_low_watermark("+"), None);
    assert_eq!(parse_low_watermark("-1"), None);
    assert_eq!(parse_low_watermark("++1"), None);
    assert_eq!(parse_low_watermark(" 8"), None);
    assert_eq!(parse_low_watermark("8 "), None);
    assert_eq!(parse_low_watermark("8a"), None);
    assert_eq!(parse_low_watermark("1_000"), None);
    assert_eq!(parse_low_watermark("0x10"), None);
    assert_eq!(parse_low_watermark("eight"), None);
    assert_eq!(parse_low_watermark("٣"), None);
    assert_eq!(parse_low_watermark("many"), None);
}

#[test]
fn reads_numbers_as_the_standard_library_does() {
    let texts = [
        "", "+", "-", "0", "1", "+1", "-1", "00", "10", "99", "100", "4294967295",
        "4294967296", "18446744073709551615", "18446744073709551616", "1844674407370955161",
        "184467440737095516150", "1 ", " 1", "1+", "+-1", "12a", "a12", "1.0", "1e3", "９",
    ];
    for text in texts {
        assert_eq!(parse_low_watermark(text), text.parse::<u64>().ok(), "{:?}", text);
    }
}

#[test]
fn a_configured_number_is_the_low_watermark() {
    for text in ["0", "1", "+3", "0016", "18446744073709551615"] {
        let parsed = parse_low_watermark(text).expect("the text is a number");
        assert_eq!(low_watermark(Some(text)), parsed);
    }
}
