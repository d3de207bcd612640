use vid2gif::speed::derive_fps;
use vid2gif::speed::parse_speed;
use vid2gif::speed::Speed;

#[test]
fn parse_plain_decimals() {
    assert_eq!(parse_speed("1.0").unwrap().millis, 1000);
    assert_eq!(parse_speed("2.0").unwrap().millis, 2000);
    assert_eq!(parse_speed("0.5").unwrap().millis, 500);
    assert_eq!(parse_speed("3").unwrap().millis, 3000);
    assert_eq!(parse_speed("0.25").unwrap().millis, 250);
}

#[test]
fn parse_bare_point_forms() {
    assert_eq!(parse_speed(".5").unwrap().millis, 500);
    assert_eq!(parse_speed("5.").unwrap().millis, 5000);
}

#[test]
fn parse_negative_and_zero() {
    assert_eq!(parse_speed("-1").unwrap().millis, -1000);
    assert_eq!(parse_speed("-0.5").unwrap().millis, -500);
    assert_eq!(parse_speed("0").unwrap().millis, 0);
    assert_eq!(parse_speed("0.0").unwrap().millis, 0);
}

#[test]
fn parse_truncates_past_the_third_fractional_digit() {
    assert_eq!(parse_speed("1.2345").unwrap().millis, 1234);
    assert_eq!(parse_speed("0.0005").unwrap().millis, 0);
}

#[test]
fn parse_rejects_malformed_tokens() {
    assert!(parse_speed("").is_none());
    assert!(parse_speed(".").is_none());
    assert!(parse_speed("-").is_none());
    assert!(parse_speed("1.2.3").is_none());
    assert!(parse_speed("fast").is_none());
    assert!(parse_speed("1x").is_none());
    assert!(parse_speed("1e3").is_none());
    assert!(parse_speed("1234567890123").is_none());
}

#[test]
fn positivity_follows_the_sign() {
    assert!(Speed { millis: 1 }.is_positive());
    assert!(!Speed { millis: 0 }.is_positive());
    assert!(!Speed { millis: -500 }.is_positive());
}

#[test]
fn fps_scales_up_with_fast_speeds_capped_at_thirty() {
    assert_eq!(derive_fps(&Speed { millis: 1000 }), 10000);
    assert_eq!(derive_fps(&Speed { millis: 2000 }), 20000);
    assert_eq!(derive_fps(&Speed { millis: 3500 }), 30000);
    assert_eq!(derive_fps(&Speed { millis: 3000 }), 30000);
    assert_eq!(derive_fps(&Speed { millis: 2999 }), 29990);
}

#[test]
fn fps_scales_down_with_slow_speeds_floored_at_five() {
    assert_eq!(derive_fps(&Speed { millis: 500 }), 5000);
    assert_eq!(derive_fps(&Speed { millis: 800 }), 8000);
    assert_eq!(derive_fps(&Speed { millis: 100 }), 5000);
    assert_eq!(derive_fps(&Speed { millis: 999 }), 9990);
}
