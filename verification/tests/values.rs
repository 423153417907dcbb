use authify::http::{error_body, find_field, status_is_success};
use authify::json::{Json, JsonSyntaxError};
use authify::query::write_query;
use authify::text::{
    decimal_string, join_strings, position, same_text, signed_decimal_string, split,
};

fn text(value: &str) -> Json {
    Json::String(value.to_string())
}

fn pairs(fields: &[(&str, &str)]) -> Vec<(String, String)> {
    fields.iter().map(|(name, value)| (name.to_string(), value.to_string())).collect()
}

#[test]
fn split_parts_at_every_separator() {
    assert_eq!(split(b"a.b.c", b'.'), vec![b"a".to_vec(), b"b".to_vec(), b"c".to_vec()]);
    assert_eq!(split(b"", b'.'), vec![Vec::<u8>::new()]);
    assert_eq!(split(b".", b'.'), vec![Vec::<u8>::new(), Vec::new()]);
    assert_eq!(split(b"a..b", b'.'), vec![b"a".to_vec(), Vec::new(), b"b".to_vec()]);
    assert_eq!(split(b"abc", b'.'), vec![b"abc".to_vec()]);
    assert_eq!(split(b"abc.", b'.'), vec![b"abc".to_vec(), Vec::new()]);
}

#[test]
fn split_agrees_with_std() {
    for input in ["", ".", "a", "a.b", ".a.", "..", "ab.cd.ef.gh", "x.y.z."] {
        let expected: Vec<Vec<u8>> = input.split('.').map(|s| s.as_bytes().to_vec()).collect();
        assert_eq!(split(input.as_bytes(), b'.'), expected, "{:?}", input);
    }
}

#[test]
fn join_puts_the_separator_between_neighbours() {
    let items = |list: &[&str]| list.iter().map(|s| s.to_string()).collect::<Vec<String>>();
    assert_eq!(join_strings(&items(&[]), " "), "");
    assert_eq!(join_strings(&items(&["openid"]), " "), "openid");
    assert_eq!(join_strings(&items(&["openid", "profile"]), " "), "openid profile");
    assert_eq!(join_strings(&items(&["a", "", "b"]), ", "), "a, , b");
    assert_eq!(join_strings(&items(&["", ""]), "-"), "-");
}

#[test]
fn decimal_numerals() {
    assert_eq!(decimal_string(0), "0");
    assert_eq!(decimal_string(7), "7");
    assert_eq!(decimal_string(10), "10");
    assert_eq!(decimal_string(404), "404");
    assert_eq!(decimal_string(u64::MAX), "18446744073709551615");
    assert_eq!(signed_decimal_string(0), "0");
    assert_eq!(signed_decimal_string(-1), "-1");
    assert_eq!(signed_decimal_string(1516239022), "1516239022");
    assert_eq!(signed_decimal_string(i64::MAX), "9223372036854775807");
    assert_eq!(signed_decimal_string(i64::MIN), "-9223372036854775808");
}

#[test]
fn same_text_is_equality() {
    assert!(same_text("", ""));
    assert!(same_text("code", "code"));
    assert!(same_text("é😀", "é😀"));
    assert!(!same_text("code", "Code"));
    assert!(!same_text("code", "code "));
    assert!(!same_text("", "a"));
    assert!(!same_text("ab", "ba"));
}

#[test]
fn success_is_200_to_299() {
    assert!(!status_is_success(0));
    assert!(!status_is_success(199));
    assert!(status_is_success(200));
    assert!(status_is_success(204));
    assert!(status_is_success(299));
    assert!(!status_is_success(300));
    assert!(!status_is_success(404));
    assert!(!status_is_success(u16::MAX));
}

#[test]
fn error_body_is_read_leniently() {
    assert_eq!(error_body(&Some(b"plain".to_vec())), "plain");
    assert_eq!(error_body(&Some("é😀".as_bytes().to_vec())), "é😀");
    assert_eq!(error_body(&Some(vec![])), "");
    assert_eq!(error_body(&Some(vec![0xc3])), "\u{fffd}");
    assert_eq!(error_body(&None), "Failed to read error body");
}

#[test]
fn find_field_takes_the_first_of_a_name() {
    let fields = pairs(&[("a", "1"), ("b", "2"), ("a", "3"), ("", "4")]);
    assert_eq!(find_field(&fields, "a"), Some(&"1".to_string()));
    assert_eq!(find_field(&fields, "b"), Some(&"2".to_string()));
    assert_eq!(find_field(&fields, ""), Some(&"4".to_string()));
    assert_eq!(find_field(&fields, "c"), None);
    assert_eq!(find_field(&pairs(&[]), "a"), None);
}

#[test]
fn write_query_writes_fields_as_they_are() {
    assert_eq!(write_query(&pairs(&[])), "");
    assert_eq!(write_query(&pairs(&[("a", "1")])), "a=1");
    assert_eq!(write_query(&pairs(&[("a", "1"), ("b", "x y"), ("c", "")])), "a=1&b=x y&c=");
    assert_eq!(write_query(&pairs(&[("", "")])), "=");
    assert_eq!(write_query(&pairs(&[("u", "http://h/p?q=1")])), "u=http://h/p?q=1");
}

#[test]
fn json_values_are_parsed_into_plain_trees() {
    assert_eq!(Json::parse(b"null"), Ok(Json::Null));
    assert_eq!(Json::parse(b" true "), Ok(Json::Bool(true)));
    assert_eq!(Json::parse(b"false"), Ok(Json::Bool(false)));
    assert_eq!(Json::parse(b"0"), Ok(Json::Unsigned(0)));
    assert_eq!(Json::parse(b"18446744073709551615"), Ok(Json::Unsigned(u64::MAX)));
    assert_eq!(Json::parse(b"-1"), Ok(Json::Signed(-1)));
    assert_eq!(Json::parse(b"-9223372036854775808"), Ok(Json::Signed(i64::MIN)));
    assert_eq!(Json::parse(b"1.5"), Ok(Json::Decimal("1.5".to_string())));
    assert_eq!(Json::parse(b"-0.25"), Ok(Json::Decimal("-0.25".to_string())));
    assert_eq!(Json::parse(b"1e2"), Ok(Json::Decimal("100.0".to_string())));
    assert_eq!(Json::parse(b"\"a\\nb\""), Ok(text("a\nb")));
    assert_eq!(Json::parse(b"[]"), Ok(Json::Array(vec![])));
    assert_eq!(Json::parse(b"{}"), Ok(Json::Object(vec![])));
    assert_eq!(
        Json::parse(br#"[1, [2, {"k": [null]}], "x"]"#),
        Ok(Json::Array(vec![
            Json::Unsigned(1),
            Json::Array(vec![
                Json::Unsigned(2),
                Json::Object(vec![("k".to_string(), Json::Array(vec![Json::Null]))]),
            ]),
            text("x"),
        ]))
    );
}

#[test]
fn json_object_members_come_sorted_and_the_last_of_a_name_stays() {
    let parsed = Json::parse(br#"{"b": 1, "a": 2, "b": 3}"#).unwrap();
    assert_eq!(
        parsed,
        Json::Object(vec![
            ("a".to_string(), Json::Unsigned(2)),
            ("b".to_string(), Json::Unsigned(3)),
        ])
    );
}

#[test]
fn text_that_is_not_json_is_refused() {
    for input in ["", " ", "{", "[1,]", "{\"a\"}", "nul", "1 2", "'a'", "{} x", "\u{feff}{}"] {
        assert_eq!(Json::parse(input.as_bytes()), Err(JsonSyntaxError), "{:?}", input);
    }
    assert_eq!(Json::parse(&[b'"', 0xff, b'"']), Err(JsonSyntaxError));
}

#[test]
fn json_lookups() {
    let document = Json::Object(vec![
        ("name".to_string(), text("first")),
        ("count".to_string(), Json::Unsigned(3)),
        ("name".to_string(), text("second")),
        ("neg".to_string(), Json::Signed(-3)),
        ("nothing".to_string(), Json::Null),
    ]);
    assert_eq!(document.get("name"), Some(&text("first")));
    assert_eq!(document.get("count"), Some(&Json::Unsigned(3)));
    assert_eq!(document.get("missing"), None);
    assert_eq!(document.get(""), None);
    assert_eq!(document.text_member("name"), Some("first".to_string()));
    assert_eq!(document.text_member("count"), None);
    assert_eq!(document.text_member("nothing"), None);
    assert_eq!(document.text_member("missing"), None);
    assert_eq!(document.unsigned_member("count"), Some(3));
    assert_eq!(document.unsigned_member("neg"), None);
    assert_eq!(document.unsigned_member("name"), None);
    assert_eq!(document.unsigned_member("missing"), None);
    assert_eq!(text("x").get("name"), None);
    assert_eq!(Json::Array(vec![document]).get("name"), None);
}

#[test]
fn json_accessors() {
    assert_eq!(text("x").as_str(), Some("x"));
    assert_eq!(Json::Decimal("1.5".to_string()).as_str(), None);
    assert_eq!(Json::Null.as_str(), None);
    assert_eq!(Json::Unsigned(9).as_u64(), Some(9));
    assert_eq!(Json::Signed(-9).as_u64(), None);
    assert_eq!(Json::Decimal("9.0".to_string()).as_u64(), None);
    assert_eq!(text("9").as_u64(), None);
}

#[test]
fn position_is_that_of_the_first_occurrence() {
    assert_eq!(position(b"", b'.'), 0);
    assert_eq!(position(b"abc", b'.'), 3);
    assert_eq!(position(b".abc", b'.'), 0);
    assert_eq!(position(b"ab.c.d", b'.'), 2);
    assert_eq!(position(b"abc.", b'.'), 3);
}
