use immich_analyze::http::{is_header_text, is_success, status_text};
use immich_analyze::ids::{id_text, read_id};
use immich_analyze::json::{parse_json, Json};
use immich_analyze::text::{
    contains_text, decimal_text, padded_text, same_text, trim_text, trim_trailing,
};

#[test]
fn numbers_are_written_in_decimal() {
    assert_eq!(decimal_text(0), "0");
    assert_eq!(decimal_text(u64::MAX), "18446744073709551615");
    assert_eq!(padded_text(7, 3), "007");
    assert_eq!(padded_text(1234, 3), "1234");
}

#[test]
fn texts_are_trimmed_and_searched() {
    assert_eq!(trim_text(" \t\u{a0}\u{3000}a b\u{2028}\n"), "a b");
    assert_eq!(trim_text(" \n "), "");
    assert_eq!(trim_text("\u{200b}x"), "\u{200b}x");
    assert_eq!(trim_trailing("http://h//", '/'), "http://h");
    assert_eq!(trim_trailing("///", '/'), "");
    assert!(contains_text("{\"res\":\"pong\"}", "pong"));
    assert!(!contains_text("pon", "pong"));
    assert!(contains_text("anything", ""));
    assert!(same_text("ä", "ä"));
    assert!(!same_text("a", "b"));
}

#[test]
fn identifiers_are_written_and_read() {
    let id: u128 = 0x0123_4567_89ab_cdef_0123_4567_89ab_cdef;
    assert_eq!(id_text(id), "01234567-89ab-cdef-0123-456789abcdef");
    assert_eq!(read_id("01234567-89ab-cdef-0123-456789abcdef"), Some(id));
    assert_eq!(read_id("0123456789ABCDEF0123456789abcdef"), Some(id));
    assert_eq!(read_id("01234567"), None);
}

#[test]
fn http_vocabulary() {
    assert!(is_success(200) && is_success(299));
    assert!(!is_success(199) && !is_success(300));
    assert_eq!(status_text(404), "404 Not Found");
    assert!(is_header_text("key with\ttab"));
    assert!(!is_header_text("line\nbreak"));
    assert!(!is_header_text("\u{7f}"));
    assert!(is_header_text("schlüssel"));
}

#[test]
fn json_is_read_and_built() {
    let value = parse_json(r#"{"a":[null,true,-1.5e3,"x"],"b":{}}"#).expect("json");
    let Some(Json::Array(items)) = value.get("a") else { panic!("array") };
    assert_eq!(items.len(), 4);
    assert_eq!(items[0], Json::Null);
    assert_eq!(items[1], Json::Bool(true));
    assert_eq!(items[3].as_text(), Some("x"));
    assert_eq!(value.get("c"), None);
    assert_eq!(value.first(), None);
    assert!(parse_json("{").is_err());
    let built = Json::object().with("n", Json::number(7)).with("t", Json::text("y"));
    assert_eq!(built.get("n"), Some(&Json::Number("7".to_owned())));
    assert_eq!(built.get("t").and_then(Json::as_text), Some("y"));
    assert_eq!(Json::array().and(Json::Null).first(), Some(&Json::Null));
}
