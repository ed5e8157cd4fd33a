use awall_configurator::json::Json;

fn text(s: &str) -> Json {
    Json::Text(s.to_string())
}

fn member(name: &str, value: Json) -> (String, Json) {
    (name.to_string(), value)
}

#[test]
fn parse_reads_every_kind_of_value() {
    assert_eq!(Json::parse(b"null"), Ok(Json::Null));
    assert_eq!(Json::parse(b"true"), Ok(Json::Bool(true)));
    assert_eq!(Json::parse(b"false"), Ok(Json::Bool(false)));
    assert_eq!(Json::parse(b"0"), Ok(Json::Int(0)));
    assert_eq!(Json::parse(b"-17"), Ok(Json::Int(-17)));
    assert_eq!(Json::parse(b"9223372036854775807"), Ok(Json::Int(i64::MAX)));
    assert_eq!(Json::parse(b"-9223372036854775808"), Ok(Json::Int(i64::MIN)));
    assert_eq!(Json::parse(b"\"eth0\""), Ok(text("eth0")));
    assert_eq!(Json::parse(b"[]"), Ok(Json::List(vec![])));
    assert_eq!(Json::parse(b"{}"), Ok(Json::Object(vec![])));
    assert_eq!(
        Json::parse(b" [1, \"a\", [null], {\"k\": false}] "),
        Ok(Json::List(vec![
            Json::Int(1),
            text("a"),
            Json::List(vec![Json::Null]),
            Json::Object(vec![member("k", Json::Bool(false))]),
        ]))
    );
}

#[test]
fn parse_keeps_numbers_that_are_no_small_integers_as_written() {
    assert_eq!(Json::parse(b"1.5"), Ok(Json::Real("1.5".to_string())));
    assert_eq!(
        Json::parse(b"18446744073709551615"),
        Ok(Json::Real("18446744073709551615".to_string()))
    );
    assert_eq!(Json::parse(b"80.0"), Ok(Json::Real("80.0".to_string())));
}

#[test]
fn parse_unescapes_strings() {
    assert_eq!(Json::parse(b"\"a\\\"b\\\\c\\n\\u0041\""), Ok(text("a\"b\\c\nA")));
    assert_eq!(Json::parse("\"\u{e9}t\u{e9}\"".as_bytes()), Ok(text("\u{e9}t\u{e9}")));
}

#[test]
fn parse_gives_the_members_of_an_object_once_each() {
    let tree = Json::parse(b"{\"b\": 1, \"a\": 2, \"b\": 3}").unwrap();
    match tree {
        Json::Object(members) => {
            assert_eq!(members.len(), 2);
            assert!(members.contains(&member("a", Json::Int(2))));
            assert!(members.contains(&member("b", Json::Int(3))));
        }
        other => panic!("not an object: {:?}", other),
    }
}

#[test]
fn parse_rejects_what_is_no_json() {
    for bad in [
        "", "{", "}", "[1,", "{\"a\"}", "{\"a\":}", "nul", "[1 2]", "\"open", "{} x", "01", "+1",
        "{'a': 1}", "[1,]",
    ] {
        match Json::parse(bad.as_bytes()) {
            Ok(tree) => panic!("{:?} was read as {:?}", bad, tree),
            Err(message) => assert!(!message.is_empty()),
        }
    }
    assert!(Json::parse(&[0xff, 0xfe]).is_err());
}

#[test]
fn parse_error_says_where() {
    assert_eq!(
        Json::parse(b"{\"a\": }"),
        Err("expected value at line 1 column 7".to_string())
    );
    assert_eq!(
        Json::parse(b"[1, 2"),
        Err("EOF while parsing a list at line 1 column 5".to_string())
    );
}

#[test]
fn find_gives_the_first_member_of_a_name() {
    let members = vec![
        member("a", Json::Int(1)),
        member("b", Json::Int(2)),
        member("a", Json::Int(3)),
    ];
    assert_eq!(Json::find(&members, "a"), Some(&Json::Int(1)));
    assert_eq!(Json::find(&members, "b"), Some(&Json::Int(2)));
    assert_eq!(Json::find(&members, "c"), None);
    assert_eq!(Json::find(&members, ""), None);
    assert_eq!(Json::find(&Vec::new(), "a"), None);
}

#[test]
fn render_writes_compact_text() {
    assert_eq!(Json::Null.render(), "null");
    assert_eq!(Json::Bool(true).render(), "true");
    assert_eq!(Json::Bool(false).render(), "false");
    assert_eq!(Json::Int(0).render(), "0");
    assert_eq!(Json::Int(-32768).render(), "-32768");
    assert_eq!(Json::Real("1.5".to_string()).render(), "1.5");
    assert_eq!(text("eth0").render(), "\"eth0\"");
    assert_eq!(Json::List(vec![]).render(), "[]");
    assert_eq!(Json::Object(vec![]).render(), "{}");
    assert_eq!(Json::List(vec![Json::Int(1)]).render(), "[1]");
    assert_eq!(
        Json::List(vec![Json::Int(1), Json::Null, text("x")]).render(),
        "[1,null,\"x\"]"
    );
    assert_eq!(
        Json::Object(vec![
            member("b", Json::List(vec![Json::Object(vec![])])),
            member("a", Json::Object(vec![member("c", Json::Bool(true))])),
        ])
        .render(),
        "{\"b\":[{}],\"a\":{\"c\":true}}"
    );
}

#[test]
fn render_escapes_strings_as_json_asks() {
    assert_eq!(text("a\"b").render(), "\"a\\\"b\"");
    assert_eq!(text("a\\b").render(), "\"a\\\\b\"");
    assert_eq!(text("line\nbreak\ttab").render(), "\"line\\nbreak\\ttab\"");
    assert_eq!(text("\u{1}").render(), "\"\\u0001\"");
    assert_eq!(text("\u{e9}").render(), "\"\u{e9}\"");
    assert_eq!(
        Json::Object(vec![member("k\"", Json::Null)]).render(),
        "{\"k\\\"\":null}"
    );
    assert_ne!(text("a\"b").render(), "a\"b");
}

#[test]
fn render_agrees_with_serde_json() {
    for sample in [
        "null",
        "[true,false,null]",
        "{\"a\":{\"b\":[1,-2,3.25,1e30,\"x\\ny\",{\"\":[]}]},\"z\":\"\\u00e9\\\"\"}",
        "[18446744073709551615,-9223372036854775808,0.1]",
        "{\"description\":\"test\",\"policy\":[{\"action\":\"accept\"}],\"zone\":{\"lan\":{\"iface\":\"eth0\"}}}",
        "\"\\u0000\\u001f\\u007f\\b\\f\"",
    ] {
        let value: serde_json::Value = serde_json::from_str(sample).unwrap();
        let expected = serde_json::to_string(&value).unwrap();
        let tree = Json::parse(sample.as_bytes()).unwrap();
        assert_eq!(tree.render(), expected);
        assert_eq!(Json::parse(tree.render().as_bytes()), Ok(tree));
    }
}
