use entrycore::json::Json;

fn s(x: &str) -> Json {
    Json::Str(x.to_string())
}

fn obj(members: Vec<(&str, Json)>) -> Json {
    Json::Object(members.into_iter().map(|(k, v)| (k.to_string(), v)).collect())
}

#[test]
fn json_text_is_compact_and_escaped() {
    let j = obj(vec![
        ("a", Json::Number("1".to_string())),
        ("b", Json::Array(vec![Json::Bool(true), Json::Null])),
        ("c", s("q\"\\\n\u{1}")),
    ]);
    let t = entrycore::json::to_json_text(&j);
    assert_eq!(t, "{\"a\":1,\"b\":[true,null],\"c\":\"q\\\"\\\\\\n\\u0001\"}");
}

#[test]
fn parse_json_reads_documents_and_refuses_garbage() {
    let script = "[[{\"type\":\"when_run_button_click\",\"params\":[]}]]";
    let program = entrycore::script::program_from_script_string(script);
    assert!(program.is_ok());
    let bad = entrycore::script::program_from_script_string("[[{");
    assert!(matches!(bad, Err(entrycore::error::Error::Parse(_))));
}

#[test]
fn with_member_replaces_and_appends() {
    let j = obj(vec![("x", Json::Number("1".to_string()))]);
    let j = entrycore::json::with_member(j, "x", Json::Number("2".to_string()));
    let j = entrycore::json::with_member(j, "y", s("z"));
    assert_eq!(entrycore::json::to_json_text(&j), "{\"x\":2,\"y\":\"z\"}");
    let n = entrycore::json::with_member(Json::Null, "k", Json::Bool(false));
    assert_eq!(entrycore::json::to_json_text(&n), "{\"k\":false}");
    let r = entrycore::json::without_member(n, "k");
    assert_eq!(entrycore::json::to_json_text(&r), "{}");
}
