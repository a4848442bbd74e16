use nucleus::paths::{has_json_extension, join_path};
use nucleus::text::{decimal_string, parse_u64};

#[test]
fn decimal_numerals() {
    assert_eq!(decimal_string(0), "0");
    assert_eq!(decimal_string(7), "7");
    assert_eq!(decimal_string(1073741824), "1073741824");
    assert_eq!(decimal_string(u64::MAX), u64::MAX.to_string());
}

#[test]
fn unsigned_parsing_follows_from_str() {
    for s in ["0", "42", "+42", "", "+", "-1", "1a", "18446744073709551615", "18446744073709551616", "007", " 1"] {
        assert_eq!(parse_u64(s), s.parse::<u64>().ok(), "input {:?}", s);
    }
}

#[test]
fn joining_paths() {
    assert_eq!(join_path("/tmp/nucleus/state", "a.json"), "/tmp/nucleus/state/a.json");
    assert_eq!(join_path("/tmp/", "a"), "/tmp/a");
    assert_eq!(join_path("/tmp", "/etc/x"), "/etc/x");
    assert_eq!(join_path("", "b"), "b");
    for (a, b) in [("/x/y", "z"), ("/x/", "z"), ("x", "/z"), ("x", "")] {
        let expected = std::path::Path::new(a).join(b);
        assert_eq!(join_path(a, b), expected.to_str().unwrap());
    }
}

#[test]
fn json_extension() {
    for name in ["a.json", ".json", "a.json.bak", "json", "..", "x..json", "a.JSON", "b.json"] {
        let expected = std::path::Path::new(name).extension().map_or(false, |e| e == "json");
        assert_eq!(has_json_extension(name), expected, "name {:?}", name);
    }
}
