use entrycore::compile::{compile_with_options, CompileOptions};
use entrycore::json::{to_json_text, Json};
use entrycore::parse::{parse, parse_file, parse_file_with_triggers, parse_with_triggers, SourceFile, SynExpr, SynFnArg, SynItem, SynLit, SynPat, SynStmt, SynType};

fn path(s: &str) -> SynExpr {
    SynExpr::Path(vec![s.to_string()])
}

fn num(s: &str) -> SynExpr {
    SynExpr::Lit(SynLit::Int(s.to_string()))
}

fn call(name: &str, args: Vec<SynExpr>) -> SynExpr {
    SynExpr::Call(Box::new(path(name)), args)
}

fn start_file() -> SourceFile {
    SourceFile {
        items: vec![
            SynItem::Static("score".to_string(), SynType::Path(vec!["i32".to_string()]), num("0")),
            SynItem::Fn(
                "when_start".to_string(),
                vec![],
                None,
                vec![
                    SynStmt::Expr(call("move_x", vec![num("10")])),
                    SynStmt::Expr(SynExpr::Assign(Box::new(path("score")), Box::new(num("1")))),
                ],
            ),
            SynItem::Fn(
                "helper".to_string(),
                vec![SynFnArg::Typed(SynPat::Ident("n".to_string()), SynType::Path(vec!["i32".to_string()]))],
                None,
                vec![SynStmt::Expr(call("move_y", vec![num("5")]))],
            ),
        ],
    }
}

#[test]
fn parse_flattens_triggers() {
    let p = parse_file(&start_file()).unwrap();
    // the static, the two trigger statements, the helper function
    assert_eq!(p.stmts.len(), 4);
    let (q, triggers) = parse_file_with_triggers(&start_file()).unwrap();
    assert_eq!(q.stmts.len(), 2);
    assert_eq!(triggers.len(), 1);
    assert_eq!(triggers[0].name, "when_start");
    assert_eq!(triggers[0].body.len(), 2);
}

#[test]
fn unsupported_items_fail() {
    let f = SourceFile { items: vec![SynItem::Const] };
    assert!(matches!(parse_file(&f), Err(entrycore::error::Error::Parse(_))));
    let g = SourceFile {
        items: vec![SynItem::Fn(
            "when_start".to_string(),
            vec![],
            None,
            vec![SynStmt::Local(SynPat::Ident("x".to_string()), Some(SynType::Path(vec!["Weird".to_string()])), None)],
        )],
    };
    match parse_file(&g) {
        Err(entrycore::error::Error::Parse(m)) => assert_eq!(m, "unknown var type: Weird"),
        other => panic!("unexpected {:?}", other),
    }
    let h = SourceFile { items: vec![SynItem::Static("big".to_string(), SynType::Other, num("99999999999999999999"))] };
    assert!(parse_file(&h).is_err());
}

#[test]
fn build_gives_threads_to_a_new_object() {
    let sources = vec![("Cat".to_string(), start_file())];
    let base = Json::Null;
    let (project, unmapped) = compile_with_options(&sources, &base, &CompileOptions { default_scene: None }).unwrap();
    assert!(unmapped.is_empty());
    let text = to_json_text(&project);
    // one new object named after the file, on scene1, with the start thread as text
    assert!(text.contains("\"name\":\"Cat\""));
    assert!(text.contains("\"scene\":\"scene1\""));
    assert!(text.contains("\"objectType\":\"sprite\""));
    assert!(text.contains("when_run"));
    assert!(text.contains("\"functions\":[{\"content\":"));
    assert!(text.contains("\"id\":\"fn_"));
    assert!(text.contains("\"variables\":["));
    assert!(text.contains("\"name\":\"score\""));
}

#[test]
fn build_matches_objects_ignoring_case() {
    let sources = vec![("cat".to_string(), start_file())];
    let obj = Json::Object(vec![
        ("id".to_string(), Json::Str("o1".to_string())),
        ("name".to_string(), Json::Str("CAT".to_string())),
    ]);
    let base = Json::Object(vec![("objects".to_string(), Json::Array(vec![obj]))]);
    let (project, _) = compile_with_options(&sources, &base, &CompileOptions::default()).unwrap();
    let text = to_json_text(&project);
    assert!(text.contains("\"objects\":[{\"id\":\"o1\",\"name\":\"CAT\",\"script\":\"[["));
}

#[test]
fn build_keeps_template_variables_of_other_ids() {
    let sources = vec![("Cat".to_string(), start_file())];
    let kept = Json::Object(vec![
        ("id".to_string(), Json::Str("tmpl_v".to_string())),
        ("name".to_string(), Json::Str("lives".to_string())),
    ]);
    let base = Json::Object(vec![("variables".to_string(), Json::Array(vec![kept]))]);
    let (project, _) = compile_with_options(&sources, &base, &CompileOptions::default()).unwrap();
    let text = to_json_text(&project);
    assert!(text.contains("\"variables\":[{\"id\":\"tmpl_v\",\"name\":\"lives\"}"));
    assert!(text.contains("\"name\":\"score\""));
    // the file names no object: it becomes a new one
    assert!(text.contains("\"name\":\"Cat\""));
}

#[test]
fn cloud_and_realtime_statics_become_such_variables() {
    let file = SourceFile {
        items: vec![
            SynItem::Static("shared".to_string(), SynType::Path(vec!["CloudVar".to_string()]), num("0")),
            SynItem::Static("live".to_string(), SynType::Path(vec!["realTime".to_string()]), num("0")),
            SynItem::Fn("when_start".to_string(), vec![], None, vec![SynStmt::Expr(call("move_x", vec![num("1")]))]),
        ],
    };
    let sources = vec![("Cat".to_string(), file)];
    let (project, _) = compile_with_options(&sources, &Json::Null, &CompileOptions::default()).unwrap();
    let text = to_json_text(&project);
    assert!(text.contains("\"isCloud\":true,\"isRealTime\":false,\"name\":\"shared\",\"object\":null,\"value\":\"\",\"variableType\":\"cloud\""));
    assert!(text.contains("\"isCloud\":false,\"isRealTime\":true,\"name\":\"live\",\"object\":null,\"value\":\"\",\"variableType\":\"realtime\""));
}

#[test]
fn build_keeps_template_scripts() {
    let sources = vec![("Cat".to_string(), start_file())];
    let scripts = Json::Object(vec![("k".to_string(), Json::Number("1".to_string()))]);
    let base = Json::Object(vec![("scripts".to_string(), scripts)]);
    let (project, _) = compile_with_options(&sources, &base, &CompileOptions::default()).unwrap();
    let text = to_json_text(&project);
    assert!(text.contains("\"scripts\":{\"k\":1}"));
    let (bare, _) = compile_with_options(&sources, &Json::Null, &CompileOptions::default()).unwrap();
    assert!(!to_json_text(&bare).contains("\"scripts\""));
}

#[test]
fn new_object_id_avoids_taken_ids() {
    let sources = vec![("Cat".to_string(), start_file())];
    let taken = Json::Object(vec![
        ("id".to_string(), Json::Str("obj_b87dcdd".to_string())),
        ("name".to_string(), Json::Str("Dog".to_string())),
    ]);
    let base = Json::Object(vec![("objects".to_string(), Json::Array(vec![taken]))]);
    let (project, _) = compile_with_options(&sources, &base, &CompileOptions::default()).unwrap();
    let text = to_json_text(&project);
    assert!(text.contains("\"id\":\"obj_b87dcdd_2\""));
    assert!(text.contains("\"name\":\"Cat\""));
}

#[test]
fn source_text_is_read_with_syn() {
    let p = parse("static score: i32 = 0;\nfn when_start() { move_x(10); }\n").unwrap();
    assert_eq!(p.stmts.len(), 2);
    let (q, triggers) = parse_with_triggers("fn when_start() { move_x(10); }\nfn helper() { move_y(5); }\n").unwrap();
    assert_eq!(triggers.len(), 1);
    assert_eq!(q.stmts.len(), 1);
    assert!(matches!(parse("fn {"), Err(entrycore::error::Error::Parse(_))));
    assert!(matches!(parse("const X: i32 = 1;"), Err(entrycore::error::Error::Parse(_))));
    let bad = vec![("a".to_string(), "fn (".to_string())];
    assert!(matches!(
        entrycore::compile::compile_text(&bad, &Json::Null),
        Err(entrycore::error::Error::Parse(_))
    ));
}

#[test]
fn whole_numbers_are_written_as_floats() {
    let sources = vec![("main".to_string(), "fn when_start() { let x = 42; }\n".to_string())];
    let (project, _) = entrycore::compile::compile_text(&sources, &Json::Null).unwrap();
    let text = to_json_text(&project);
    assert!(text.contains("42.0"));
}

#[test]
fn left_out_statements_give_warnings() {
    let clean = vec![("main".to_string(), "fn when_start() { let x = 42; }\n".to_string())];
    let (_, warnings) = entrycore::compile::compile_text(&clean, &Json::Null).unwrap();
    assert!(warnings.is_empty());
    let dropped = vec![("main".to_string(), "fn when_start() { move_x(timer); move_x(10); }\n".to_string())];
    let (project, warnings) = entrycore::compile::compile_text(&dropped, &Json::Null).unwrap();
    assert!(!warnings.is_empty());
    assert!(to_json_text(&project).contains("move_x"));
}
