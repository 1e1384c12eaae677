use ray_tracing::cli::{parse_aspect_ratio, parse_usize};

#[test]
fn parse_usize_plain() {
    assert_eq!(parse_usize("0"), Some(0));
    assert_eq!(parse_usize("123"), Some(123));
    assert_eq!(parse_usize("1080"), Some(1080));
    assert_eq!(parse_usize("007"), Some(7));
}

#[test]
fn parse_usize_leading_plus() {
    assert_eq!(parse_usize("+7"), Some(7));
    assert_eq!(parse_usize("+0"), Some(0));
}

#[test]
fn parse_usize_rejects_malformed() {
    assert_eq!(parse_usize(""), None);
    assert_eq!(parse_usize("+"), None);
    assert_eq!(parse_usize("12a"), None);
    assert_eq!(parse_usize("a12"), None);
    assert_eq!(parse_usize("-3"), None);
    assert_eq!(parse_usize("1 2"), None);
    assert_eq!(parse_usize("++1"), None);
}

#[test]
fn parse_usize_bounds() {
    let max = usize::MAX.to_string();
    assert_eq!(parse_usize(&max), Some(usize::MAX));
    let too_big = format!("{}0", max);
    assert_eq!(parse_usize(&too_big), None);
    assert_eq!(parse_usize("99999999999999999999999999999999"), None);
}

#[test]
fn parse_usize_matches_std_parse() {
    for text in ["0", "42", "+9", "", "+", "x", "18446744073709551616"] {
        assert_eq!(parse_usize(text), text.parse::<usize>().ok(), "text = {:?}", text);
    }
}

#[test]
fn parse_aspect_ratio_accepts() {
    assert_eq!(parse_aspect_ratio("16/9"), Some((16, 9)));
    assert_eq!(parse_aspect_ratio("1/1"), Some((1, 1)));
    assert_eq!(parse_aspect_ratio("+4/+3"), Some((4, 3)));
}

#[test]
fn parse_aspect_ratio_rejects() {
    assert_eq!(parse_aspect_ratio("16"), None);
    assert_eq!(parse_aspect_ratio("16/9/2"), None);
    assert_eq!(parse_aspect_ratio("/9"), None);
    assert_eq!(parse_aspect_ratio("16/"), None);
    assert_eq!(parse_aspect_ratio("/"), None);
    assert_eq!(parse_aspect_ratio(""), None);
    assert_eq!(parse_aspect_ratio("a/b"), None);
}
