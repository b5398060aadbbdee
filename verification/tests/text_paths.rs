use bedrock_updater::paths::{file_name, join_path};
use bedrock_updater::text::{format_i32, format_u64, parse_digits_i32};

#[test]
fn formats_unsigned_numbers() {
    assert_eq!(format_u64(0), "0");
    assert_eq!(format_u64(7), "7");
    assert_eq!(format_u64(1234), "1234");
    assert_eq!(format_u64(404), "404");
    assert_eq!(format_u64(u64::MAX), "18446744073709551615");
}

#[test]
fn formats_signed_numbers() {
    assert_eq!(format_i32(1234), "1234");
    assert_eq!(format_i32(0), "0");
    assert_eq!(format_i32(-42), "-42");
    assert_eq!(format_i32(i32::MIN), "-2147483648");
    assert_eq!(format_i32(i32::MAX), "2147483647");
}

#[test]
fn parses_digit_strings() {
    assert_eq!(parse_digits_i32("123"), Some(123));
    assert_eq!(parse_digits_i32("007"), Some(7));
    assert_eq!(parse_digits_i32("0"), Some(0));
    assert_eq!(parse_digits_i32("2147483647"), Some(i32::MAX));
}

#[test]
fn rejects_what_is_not_an_i32_in_digits() {
    assert_eq!(parse_digits_i32(""), None);
    assert_eq!(parse_digits_i32("2147483648"), None);
    assert_eq!(parse_digits_i32("99999999999999999999"), None);
    assert_eq!(parse_digits_i32("12a"), None);
    assert_eq!(parse_digits_i32("+5"), None);
    assert_eq!(parse_digits_i32("-5"), None);
    assert_eq!(parse_digits_i32("\u{0663}"), None);
}

#[test]
fn takes_the_final_component_of_a_path() {
    assert_eq!(file_name("bedrock-server-1.20.1.zip"), Some("bedrock-server-1.20.1.zip".to_string()));
    assert_eq!(file_name("downloads/bedrock-server-1.20.1.zip"), Some("bedrock-server-1.20.1.zip".to_string()));
    assert_eq!(file_name("/srv/pkg.zip"), Some("pkg.zip".to_string()));
    assert_eq!(file_name("a/b/"), Some("b".to_string()));
    assert_eq!(file_name("a/b//"), Some("b".to_string()));
    assert_eq!(file_name("a/."), Some("a".to_string()));
    assert_eq!(file_name("./x"), Some("x".to_string()));
}

#[test]
fn finds_no_file_name_where_std_finds_none() {
    for p in ["", ".", "..", "/", "a/..", "./", "./.", "//"] {
        assert_eq!(file_name(p), None, "{:?}", p);
        assert_eq!(std::path::Path::new(p).file_name(), None, "{:?}", p);
    }
}

#[test]
fn agrees_with_std_on_file_names() {
    for p in ["a", "a/b", "a/b/", "a/./", "/x/y/z.zip", "x/../y", "..a", "a/.b", ".hidden", "a/..."] {
        let expected = std::path::Path::new(p).file_name().map(|n| n.to_str().unwrap().to_string());
        assert_eq!(file_name(p), expected, "{:?}", p);
    }
}

#[test]
fn joins_paths_as_pathbuf_push() {
    assert_eq!(join_path("/tmp/bedrock-server.x", "allowlist.json"), "/tmp/bedrock-server.x/allowlist.json");
    assert_eq!(join_path("/tmp/dir/", "a"), "/tmp/dir/a");
    assert_eq!(join_path("", "a"), "a");
    assert_eq!(join_path("/tmp", "/abs"), "/abs");
    for (base, rel) in [("/tmp/d", "config/default/permissions.json"), ("d/", "x"), ("", "y"), ("/a", "/b")] {
        let mut p = std::path::PathBuf::new();
        p.push(base);
        p.push(rel);
        assert_eq!(join_path(base, rel), p.to_str().unwrap());
    }
}

#[test]
fn joined_path_keeps_the_file_name() {
    let joined = join_path("/tmp/unpacked", "config/default/permissions.json");
    assert_eq!(file_name(&joined), file_name("config/default/permissions.json"));
    assert_eq!(file_name(&joined), Some("permissions.json".to_string()));
    let joined = join_path("/tmp/unpacked/", "server.properties");
    assert_eq!(file_name(&joined), Some("server.properties".to_string()));
}
