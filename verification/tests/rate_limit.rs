use artificial::delay::Delay;
use artificial::rate_limit::extract_rate_limit_info;
use artificial::rate_limit::header_string;
use artificial::rate_limit::header_u32;
use artificial::rate_limit::is_visible_text;
use artificial::rate_limit::log_rate_limit_tight;
use artificial::rate_limit::parse_decimal;
use artificial::rate_limit::parse_retry_after_seconds;
use artificial::rate_limit::retry_after;
use artificial::rate_limit::trim_blanks;
use artificial::rate_limit::LogLevel;
use reqwest::header::HeaderMap;
use reqwest::header::HeaderValue;

fn map_of(pairs: &[(&'static str, &'static str)]) -> HeaderMap {
    let mut map = HeaderMap::new();
    for (name, value) in pairs {
        map.insert(*name, HeaderValue::from_static(value));
    }
    map
}

#[test]
fn decimal_parsing() {
    assert_eq!(parse_decimal(b"0", 10), Some(0));
    assert_eq!(parse_decimal(b"42", 100), Some(42));
    assert_eq!(parse_decimal(b"+42", 100), Some(42));
    assert_eq!(parse_decimal(b"007", 100), Some(7));
    assert_eq!(parse_decimal(b"100", 100), Some(100));
    assert_eq!(parse_decimal(b"101", 100), None);
    assert_eq!(parse_decimal(b"", 100), None);
    assert_eq!(parse_decimal(b"+", 100), None);
    assert_eq!(parse_decimal(b"-1", 100), None);
    assert_eq!(parse_decimal(b"++1", 100), None);
    assert_eq!(parse_decimal(b"1 ", 100), None);
    assert_eq!(parse_decimal(b" 1", 100), None);
    assert_eq!(parse_decimal(b"1_0", 100), None);
    assert_eq!(parse_decimal(b"12a", 100), None);
    assert_eq!(parse_decimal(b"18446744073709551615", u64::MAX), Some(u64::MAX));
    assert_eq!(parse_decimal(b"18446744073709551616", u64::MAX), None);
    assert_eq!(parse_decimal(b"99999999999999999999999999", u64::MAX), None);
    assert_eq!(parse_decimal(b"00000000000000000000000001", u64::MAX), Some(1));
    assert_eq!(parse_decimal(b"5", 3), None);
    assert_eq!(parse_decimal(b"0", 0), Some(0));
}

#[test]
fn decimal_parsing_agrees_with_the_standard_parser() {
    let samples = [
        "0", "1", "+1", "-1", "4294967295", "4294967296", "", "+", "12 ", "0x10", "١٢", "1e3",
        "000", "+0009",
    ];
    for sample in samples {
        assert_eq!(
            parse_decimal(sample.as_bytes(), u32::MAX as u64),
            sample.parse::<u32>().ok().map(|n| n as u64),
            "sample {:?}",
            sample
        );
        assert_eq!(
            parse_decimal(sample.as_bytes(), u64::MAX),
            sample.parse::<u64>().ok(),
            "sample {:?}",
            sample
        );
    }
}

#[test]
fn blanks_are_trimmed() {
    assert_eq!(trim_blanks(b"  12\t "), b"12");
    assert_eq!(trim_blanks(b"12"), b"12");
    assert_eq!(trim_blanks(b" \t "), b"");
    assert_eq!(trim_blanks(b""), b"");
    assert_eq!(trim_blanks(b" a b "), b"a b");
    assert_eq!(trim_blanks(b"\n1\n"), b"\n1\n");
}

#[test]
fn visible_text() {
    assert!(is_visible_text(b"hello world\t!"));
    assert!(is_visible_text(b""));
    assert!(!is_visible_text(b"line\nbreak"));
    assert!(!is_visible_text(&[0x7f]));
    assert!(!is_visible_text(&[0xc3, 0xa9]));
    assert!(is_visible_text(b"~ "));
}

#[test]
fn counts_are_read_from_headers() {
    let map = map_of(&[
        ("x-ratelimit-limit-requests", "5000"),
        ("x-ratelimit-remaining-requests", "+12"),
        ("x-ratelimit-limit-tokens", "4294967296"),
        ("x-ratelimit-remaining-tokens", " 7"),
    ]);
    assert_eq!(header_u32(&map, "x-ratelimit-limit-requests"), Some(5000));
    assert_eq!(header_u32(&map, "X-RateLimit-Limit-Requests"), Some(5000));
    assert_eq!(header_u32(&map, "x-ratelimit-remaining-requests"), Some(12));
    assert_eq!(header_u32(&map, "x-ratelimit-limit-tokens"), None);
    assert_eq!(header_u32(&map, "x-ratelimit-remaining-tokens"), None);
    assert_eq!(header_u32(&map, "x-ratelimit-reset-requests"), None);
    assert_eq!(header_u32(&map, "not a header name"), None);
    assert_eq!(header_u32(&map, ""), None);
}

#[test]
fn text_is_read_from_headers() {
    let mut map = map_of(&[("x-ratelimit-reset-requests", "1m30s")]);
    map.insert("x-ratelimit-reset-tokens", HeaderValue::from_bytes(&[0x66, 0xfc, 0x6e, 0x66]).unwrap());
    map.append("x-ratelimit-reset-requests", HeaderValue::from_static("later"));
    assert_eq!(header_string(&map, "x-ratelimit-reset-requests").as_deref(), Some("1m30s"));
    assert_eq!(header_string(&map, "x-ratelimit-reset-tokens"), None);
    assert_eq!(header_string(&map, "x-missing"), None);
}

#[test]
fn retry_after_is_read_in_whole_seconds() {
    assert_eq!(parse_retry_after_seconds(&map_of(&[("retry-after", "5")])), Delay::from_secs(5));
    assert_eq!(parse_retry_after_seconds(&map_of(&[("retry-after", " 30\t")])), Delay::from_secs(30));
    assert_eq!(parse_retry_after_seconds(&map_of(&[("retry-after", "0")])), Delay::zero());
    assert_eq!(parse_retry_after_seconds(&map_of(&[("retry-after", "1.5")])), Delay::zero());
    assert_eq!(
        parse_retry_after_seconds(&map_of(&[("retry-after", "Wed, 21 Oct 2015 07:28:00 GMT")])),
        Delay::zero()
    );
    assert_eq!(parse_retry_after_seconds(&HeaderMap::new()), Delay::zero());
    assert_eq!(
        parse_retry_after_seconds(&map_of(&[("retry-after", "18446744073709551615")])),
        Delay::from_secs(u64::MAX)
    );
    assert_eq!(
        parse_retry_after_seconds(&map_of(&[("retry-after", "18446744073709551616")])),
        Delay::zero()
    );
}

#[test]
fn rate_limit_info_prefers_the_request_reset() {
    let both = map_of(&[
        ("retry-after", "3"),
        ("x-ratelimit-reset-requests", "1s"),
        ("x-ratelimit-reset-tokens", "2s"),
        ("x-ratelimit-limit-requests", "10"),
    ]);
    let (retry_after, reset_at, info) = extract_rate_limit_info(&both);
    assert_eq!(retry_after, Some(Delay::from_secs(3)));
    assert_eq!(reset_at.as_deref(), Some("1s"));
    assert_eq!(info.limit_requests, Some(10));
    assert_eq!(info.remaining_requests, None);
    assert_eq!(info.reset_requests.as_deref(), Some("1s"));
    assert_eq!(info.reset_tokens.as_deref(), Some("2s"));

    let tokens_only = map_of(&[("x-ratelimit-reset-tokens", "2s"), ("retry-after", "0")]);
    let (retry_after, reset_at, info) = extract_rate_limit_info(&tokens_only);
    assert_eq!(retry_after, Some(Delay::zero()));
    assert_eq!(reset_at.as_deref(), Some("2s"));
    assert_eq!(info.reset_requests, None);

    let (retry_after, reset_at, info) = extract_rate_limit_info(&HeaderMap::new());
    assert_eq!(retry_after, None);
    assert_eq!(reset_at, None);
    assert_eq!(info.limit_tokens, None);
    assert_eq!(info.remaining_tokens, None);
}

#[test]
fn tight_headroom_is_a_warning() {
    let roomy = map_of(&[
        ("x-ratelimit-limit-requests", "100"),
        ("x-ratelimit-remaining-requests", "50"),
        ("x-ratelimit-limit-tokens", "10000"),
        ("x-ratelimit-remaining-tokens", "5000"),
    ]);
    let report = log_rate_limit_tight(&roomy);
    assert_eq!(report.level, LogLevel::Debug);
    assert_eq!(report.remaining_requests, 50);
    assert_eq!(report.limit_requests, 100);
    assert_eq!(report.remaining_tokens, 5000);
    assert_eq!(report.limit_tokens, 10000);

    let few_requests = map_of(&[("x-ratelimit-remaining-requests", "2")]);
    assert_eq!(log_rate_limit_tight(&few_requests).level, LogLevel::Warn);
    let three_requests = map_of(&[("x-ratelimit-remaining-requests", "3")]);
    assert_eq!(log_rate_limit_tight(&three_requests).level, LogLevel::Debug);

    let five_percent = map_of(&[
        ("x-ratelimit-limit-requests", "100"),
        ("x-ratelimit-remaining-requests", "5"),
    ]);
    assert_eq!(log_rate_limit_tight(&five_percent).level, LogLevel::Warn);
    let six_percent = map_of(&[
        ("x-ratelimit-limit-requests", "100"),
        ("x-ratelimit-remaining-requests", "6"),
    ]);
    assert_eq!(log_rate_limit_tight(&six_percent).level, LogLevel::Debug);

    let few_tokens = map_of(&[("x-ratelimit-remaining-tokens", "128")]);
    assert_eq!(log_rate_limit_tight(&few_tokens).level, LogLevel::Warn);
    let some_tokens = map_of(&[("x-ratelimit-remaining-tokens", "129")]);
    assert_eq!(log_rate_limit_tight(&some_tokens).level, LogLevel::Debug);

    let nothing = log_rate_limit_tight(&HeaderMap::new());
    assert_eq!(nothing.level, LogLevel::Debug);
    assert_eq!(nothing.remaining_requests, u32::MAX);
    assert_eq!(nothing.limit_requests, 0);
    assert_eq!(nothing.remaining_tokens, u32::MAX);
    assert_eq!(nothing.limit_tokens, 0);
}

#[test]
fn retry_after_of_zero_is_a_hint_of_no_length() {
    assert_eq!(retry_after(&map_of(&[("retry-after", "0")])), Some(Delay::zero()));
    assert_eq!(retry_after(&map_of(&[("retry-after", " +000 ")])), Some(Delay::zero()));
    assert_eq!(retry_after(&map_of(&[("retry-after", "5")])), Some(Delay::from_secs(5)));
    assert_eq!(retry_after(&map_of(&[("retry-after", "\t12 ")])), Some(Delay::from_secs(12)));
    assert_eq!(
        retry_after(&map_of(&[("retry-after", "18446744073709551615")])),
        Some(Delay::from_secs(u64::MAX))
    );
    assert_eq!(retry_after(&map_of(&[("retry-after", "18446744073709551616")])), None);
    assert_eq!(retry_after(&map_of(&[("retry-after", "")])), None);
    assert_eq!(retry_after(&map_of(&[("retry-after", "   ")])), None);
    assert_eq!(retry_after(&map_of(&[("retry-after", "1.5")])), None);
    assert_eq!(retry_after(&map_of(&[("retry-after", "-1")])), None);
    assert_eq!(retry_after(&map_of(&[("retry-after", "soon")])), None);
    assert_eq!(retry_after(&HeaderMap::new()), None);
    let mut opaque = HeaderMap::new();
    opaque.insert("retry-after", HeaderValue::from_bytes(&[0x35, 0xff]).unwrap());
    assert_eq!(retry_after(&opaque), None);
    assert_eq!(extract_rate_limit_info(&opaque).0, None);
    assert_eq!(extract_rate_limit_info(&map_of(&[("retry-after", "x")])).0, None);
}
