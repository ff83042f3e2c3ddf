use shc_core::config::AppConfig;
use shc_core::config_text::{encode_config, parse_config};

#[test]
fn round_trip_full_store() {
    let mut cfg = AppConfig::new();
    cfg.set_session(
        "eyJhbGciOiJIUzI1NiJ9.payload.sig".to_string(),
        "refresh-abc-123".to_string(),
        "user@example.com".to_string(),
        "Ada Lovelace".to_string(),
        "uid-42".to_string(),
    );
    let text = encode_config(&cfg);
    let back = parse_config(&text).expect("the written document must read back");
    assert_eq!(back, cfg);
}

#[test]
fn round_trip_empty_store() {
    let cfg = AppConfig::new();
    let text = encode_config(&cfg);
    assert_eq!(text, "");
    let back = parse_config(&text).expect("an empty document must read back");
    assert_eq!(back, cfg);
}

#[test]
fn round_trip_partial_store() {
    let mut cfg = AppConfig::new();
    cfg.email = Some("only@example.com".to_string());
    let text = encode_config(&cfg);
    let back = parse_config(&text).expect("a partial document must read back");
    assert_eq!(back, cfg);
}

#[test]
fn round_trip_values_needing_escapes() {
    let mut cfg = AppConfig::new();
    cfg.set_session(
        "quote\" and backslash \\ inside".to_string(),
        "line\nbreak and tab\t and return\r".to_string(),
        "control \u{1} and delete \u{7f}".to_string(),
        "accents \u{e9}\u{e8} and beyond \u{1f600}".to_string(),
        "backspace \u{8} formfeed \u{c}".to_string(),
    );
    let text = encode_config(&cfg);
    let back = parse_config(&text).expect("escaped values must read back");
    assert_eq!(back, cfg);
}

#[test]
fn written_document_has_one_line_per_present_field() {
    let mut cfg = AppConfig::new();
    cfg.access_token = Some("at".to_string());
    cfg.refresh_token = Some("rt".to_string());
    cfg.user_id = Some("u1".to_string());
    let text = encode_config(&cfg);
    assert_eq!(
        text,
        "access_token = \"at\"\nrefresh_token = \"rt\"\nuser_id = \"u1\"\n"
    );
}

#[test]
fn written_document_escapes_specials() {
    let mut cfg = AppConfig::new();
    cfg.name = Some("a\"b\\c\nd\u{1}e".to_string());
    let text = encode_config(&cfg);
    assert_eq!(text, "name = \"a\\\"b\\\\c\\nd\\u0001e\"\n");
}

#[test]
fn reader_accepts_blank_lines_and_letter_escapes() {
    let text = "\nemail = \"a\\nb\"\n\nname = \"c\\td\"\n";
    let cfg = parse_config(text).expect("blank lines are allowed");
    assert_eq!(cfg.email.as_deref(), Some("a\nb"));
    assert_eq!(cfg.name.as_deref(), Some("c\td"));
    assert_eq!(cfg.access_token, None);
}

#[test]
fn reader_accepts_two_digit_unicode_escapes() {
    let cfg = parse_config("name = \"x\\u0041y\"\n").expect("hex escapes are allowed");
    assert_eq!(cfg.name.as_deref(), Some("xAy"));
    let cfg2 = parse_config("name = \"\\u007f\"\n").expect("delete escapes are allowed");
    assert_eq!(cfg2.name.as_deref(), Some("\u{7f}"));
}

#[test]
fn reader_rejects_broken_documents() {
    assert_eq!(parse_config("unknown_key = \"x\"\n"), None);
    assert_eq!(parse_config("access_token = x\n"), None);
    assert_eq!(parse_config("access_token = \"unterminated"), None);
    assert_eq!(parse_config("access_token = \"bad\\qescape\"\n"), None);
    assert_eq!(parse_config("access_token = \"raw\ttab\"\n"), None);
    assert_eq!(parse_config("access_token = \"ok\" trailing\n"), None);
}

#[test]
fn reader_accepts_missing_final_newline() {
    let cfg = parse_config("user_id = \"u9\"").expect("the last line may lack its newline");
    assert_eq!(cfg.user_id.as_deref(), Some("u9"));
}
