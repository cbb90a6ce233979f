use convex_dart::decimal::{format_i64, parse_i64};

#[test]
fn formats_like_display() {
    for i in [0i64, 1, -1, 9, 10, -10, 123456789, i64::MIN, i64::MAX] {
        assert_eq!(format_i64(i), i.to_string());
    }
}

#[test]
fn parses_like_std() {
    for t in ["0", "+5", "-5", "007", "", "-", "+", "12a", " 1", "9223372036854775807",
              "9223372036854775808", "-9223372036854775808", "-9223372036854775809",
              "99999999999999999999999999"] {
        assert_eq!(parse_i64(t), t.parse::<i64>().ok(), "text {:?}", t);
    }
}

#[test]
fn integer_text_round_trip() {
    for i in [0i64, 42, -42, i64::MIN, i64::MAX] {
        assert_eq!(parse_i64(&format_i64(i)), Some(i));
    }
}
