use authify::json::Json;
use authify::utils::{
    display_json_result, display_nested_structure, display_request_parameters, format_json_value,
    lines, truncate_line,
};

fn text(value: &str) -> Json {
    Json::String(value.to_string())
}

fn row(name: &str, value: &str) -> (String, String) {
    (name.to_string(), value.to_string())
}

#[test]
fn short_lines_are_left_as_they_are() {
    assert_eq!(truncate_line(""), "");
    assert_eq!(truncate_line("short"), "short");
    let exactly = "x".repeat(80);
    assert_eq!(truncate_line(&exactly), exactly);
    let wide = "é".repeat(40);
    assert_eq!(wide.len(), 80);
    assert_eq!(truncate_line(&wide), wide);
}

#[test]
fn long_lines_are_cut_to_80_bytes_and_marked() {
    let long = "x".repeat(81);
    assert_eq!(truncate_line(&long), format!("{}...", "x".repeat(80)));
    let longer = format!("{}{}", "0123456789".repeat(20), "tail");
    assert_eq!(truncate_line(&longer), format!("{}...", "0123456789".repeat(8)));
    let accented = "é".repeat(41);
    assert_eq!(truncate_line(&accented), format!("{}...", "é".repeat(40)));
}

#[test]
fn cut_never_parts_a_character() {
    let line = format!("{}é{}", "x".repeat(79), "tail");
    assert!(!line.is_char_boundary(80));
    assert_eq!(truncate_line(&line), format!("{}...", "x".repeat(79)));
    let line = format!("{}😀{}", "x".repeat(77), "tail");
    assert_eq!(truncate_line(&line), format!("{}...", "x".repeat(77)));
    let line = format!("{}😀{}", "x".repeat(76), "tail");
    assert_eq!(truncate_line(&line), format!("{}😀...", "x".repeat(76)));
    let line = "😀".repeat(30);
    assert_eq!(truncate_line(&line), format!("{}...", "😀".repeat(20)));
}

#[test]
fn cut_agrees_with_slicing_where_slicing_works() {
    for line in ["a".repeat(200), format!("{}é", "ab".repeat(60)), "é".repeat(100)] {
        assert!(line.is_char_boundary(80));
        assert_eq!(truncate_line(&line), format!("{}...", &line[..80]));
    }
}

#[test]
fn lines_agree_with_std() {
    for input in [
        "",
        "one",
        "one\n",
        "one\ntwo",
        "one\r\ntwo\r\n",
        "\n",
        "\n\n",
        "\r\n",
        "\r",
        "a\rb",
        "a\r",
        "a\r\r\nb",
        "a\n\nb\n",
        "é\n😀\r\nz",
        "last\r\n\r",
    ] {
        let expected: Vec<String> = input.lines().map(|line| line.to_string()).collect();
        assert_eq!(lines(input), expected, "{:?}", input);
    }
}

#[test]
fn lines_by_example() {
    assert_eq!(lines(""), Vec::<String>::new());
    assert_eq!(lines("one\r\ntwo\n"), vec!["one".to_string(), "two".to_string()]);
    assert_eq!(lines("a\n\nb"), vec!["a".to_string(), String::new(), "b".to_string()]);
    assert_eq!(lines("tail\r"), vec!["tail\r".to_string()]);
}

#[test]
fn values_are_written_for_a_cell() {
    assert_eq!(format_json_value(&text("plain")), "plain");
    assert_eq!(format_json_value(&text("")), "");
    assert_eq!(format_json_value(&Json::Null), "null");
    assert_eq!(format_json_value(&Json::Bool(true)), "true");
    assert_eq!(format_json_value(&Json::Bool(false)), "false");
    assert_eq!(format_json_value(&Json::Unsigned(3600)), "3600");
    assert_eq!(format_json_value(&Json::Signed(-7)), "-7");
    assert_eq!(format_json_value(&Json::Decimal("0.5".to_string())), "0.5");
    assert_eq!(format_json_value(&Json::Array(vec![])), "[]");
    assert_eq!(format_json_value(&Json::Array(vec![text("a")])), "[a]");
    assert_eq!(
        format_json_value(&Json::Array(vec![
            text("a"),
            Json::Unsigned(1),
            Json::Null,
            Json::Array(vec![Json::Bool(true), Json::Array(vec![])]),
            Json::Object(vec![("k".to_string(), text("v"))]),
        ])),
        "[a, 1, null, [true, []], {...}]"
    );
    assert_eq!(format_json_value(&Json::Object(vec![])), "{...}");
}

#[test]
fn values_are_written_as_serde_json_values_are() {
    let source = br#"{"a": "s", "b": null, "c": true, "d": 12, "e": -3, "f": 2.5,
        "g": [1, "x", [false], {"y": 1}], "h": {"z": 0}, "i": 1e30}"#;
    let parsed: serde_json::Value = serde_json::from_slice(source).unwrap();
    let document = Json::parse(source).unwrap();
    for (name, expected) in [
        ("a", "s"),
        ("b", "null"),
        ("c", "true"),
        ("d", "12"),
        ("e", "-3"),
        ("f", "2.5"),
        ("g", "[1, x, [false], {...}]"),
        ("h", "{...}"),
    ] {
        assert_eq!(format_json_value(document.get(name).unwrap()), expected);
    }
    assert_eq!(format_json_value(document.get("i").unwrap()), parsed["i"].to_string());
}

#[test]
fn members_are_shown_row_by_row() {
    let members = vec![
        ("token_type".to_string(), text("Bearer")),
        ("expires_in".to_string(), Json::Unsigned(3600)),
        ("scope".to_string(), Json::Array(vec![text("openid"), text("email")])),
        ("extra".to_string(), Json::Object(vec![])),
    ];
    assert_eq!(
        display_nested_structure(&members, 0),
        vec![
            row("token_type", "Bearer"),
            row("expires_in", "3600"),
            row("scope", "[openid, email]"),
            row("extra", "{...}"),
        ]
    );
    assert_eq!(
        display_nested_structure(&members, 2)[0],
        row("  token_type", "Bearer")
    );
    assert_eq!(display_nested_structure(&vec![], 3), vec![]);
}

#[test]
fn a_value_of_several_lines_takes_several_rows() {
    let members = vec![
        ("key".to_string(), text("line one\nline two\r\nline three\n")),
        ("next".to_string(), Json::Null),
    ];
    assert_eq!(
        display_nested_structure(&members, 1),
        vec![
            row(" key", "line one"),
            row("", "line two"),
            row("", "line three"),
            row(" next", "null"),
        ]
    );
}

#[test]
fn a_value_without_a_line_has_no_row() {
    let members = vec![
        ("empty".to_string(), text("")),
        ("shown".to_string(), text("x")),
    ];
    assert_eq!(display_nested_structure(&members, 0), vec![row("shown", "x")]);
}

#[test]
fn long_values_are_cut_in_their_rows() {
    let members = vec![("access_token".to_string(), text(&"t".repeat(100)))];
    assert_eq!(
        display_nested_structure(&members, 0),
        vec![row("access_token", &format!("{}...", "t".repeat(80)))]
    );
}

#[test]
fn only_objects_make_a_table() {
    let object = Json::parse(br#"{"b": 1, "a": "x"}"#).unwrap();
    assert_eq!(display_json_result(&object), Some(vec![row("a", "x"), row("b", "1")]));
    assert_eq!(display_json_result(&Json::Object(vec![])), Some(vec![]));
    assert_eq!(display_json_result(&Json::Array(vec![])), None);
    assert_eq!(display_json_result(&text("x")), None);
    assert_eq!(display_json_result(&Json::Null), None);
}

#[test]
fn request_parameters_stand_under_a_heading() {
    let parameters = vec![row("grant_type", "authorization_code"), row("code", &"c".repeat(90))];
    assert_eq!(
        display_request_parameters(&parameters),
        vec![
            row("Parameter", "Value"),
            row("grant_type", "authorization_code"),
            row("code", &"c".repeat(90)),
        ]
    );
    assert_eq!(display_request_parameters(&vec![]), vec![row("Parameter", "Value")]);
}
