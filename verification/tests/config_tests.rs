use sub_manager_lite::config::{parse_interval, parse_u64};

#[test]
fn interval_must_be_positive() {
    assert_eq!(parse_interval("60"), Ok(60));
    assert!(parse_interval("0").is_err());
    assert!(parse_interval("invalid").is_err());
}

#[test]
fn interval_error_message_names_the_setting() {
    assert_eq!(
        parse_interval("0"),
        Err("SELF_CHECK_INTERVAL_MINUTES 必须是大于 0 的整数".to_string())
    );
    assert_eq!(
        parse_interval(""),
        Err("SELF_CHECK_INTERVAL_MINUTES 必须是大于 0 的整数".to_string())
    );
}

#[test]
fn u64_text_follows_the_standard_grammar() {
    assert_eq!(parse_u64("+5"), Some(5));
    assert_eq!(parse_u64("007"), Some(7));
    assert_eq!(parse_u64(""), None);
    assert_eq!(parse_u64("+"), None);
    assert_eq!(parse_u64("-1"), None);
    assert_eq!(parse_u64(" 1"), None);
    assert_eq!(parse_u64("18446744073709551615"), Some(u64::MAX));
    assert_eq!(parse_u64("18446744073709551616"), None);
    for s in ["0", "1", "60", "+12", "99999999999", "12a", "1_000"] {
        assert_eq!(parse_u64(s), s.parse::<u64>().ok(), "{s}");
    }
}
