use entrycore::asset::AssetMap;
use entrycore::decodegen::{emit, emit_with_var_map};
use entrycore::ir::{Expr, FuncRef, Program, Stmt, VarRef};
use entrycore::json::Json;
use entrycore::script::{from_script, program_from_script_string, program_from_script_string_with_vars_and_assets};
use entrycore::var::VarMap;

#[test]
fn trigger_thread_becomes_function() {
    let script = r#"[[{"type":"when_run","params":[]},{"type":"move_x","params":[{"type":"number","params":[10]},null]}]]"#;
    let program = program_from_script_string(script).unwrap();
    assert_eq!(program.stmts.len(), 1);
    let text = emit(&program).unwrap();
    assert_eq!(text, "fn when_start() {\n    move_x(10.0);\n}\n\n");
}

#[test]
fn older_start_name_is_read_too() {
    let script = r#"[[{"type":"when_run_button_click","params":[]}]]"#;
    let program = program_from_script_string(script).unwrap();
    match &program.stmts[0] {
        Stmt::FuncDef { name, body, .. } => {
            assert_eq!(name, "when_start");
            assert!(body.is_empty());
        }
        other => panic!("unexpected {:?}", other),
    }
}

#[test]
fn script_root_must_be_array() {
    let r = from_script(&Json::Null, &VarMap::new());
    assert!(matches!(r, Err(entrycore::error::Error::Parse(_))));
    let r = from_script(&Json::Array(vec![Json::Bool(true)]), &VarMap::new());
    assert!(matches!(r, Err(entrycore::error::Error::Parse(_))));
}

#[test]
fn empty_threads_give_nothing() {
    let r = from_script(&Json::Array(vec![Json::Array(vec![])]), &VarMap::new()).unwrap();
    assert!(r.is_empty());
}

#[test]
fn sound_ids_become_names() {
    let mut members = Vec::new();
    members.push(("name".to_string(), Json::Str("Cat".to_string())));
    members.push(("id".to_string(), Json::Str("o1".to_string())));
    let sound = Json::Object(vec![
        ("id".to_string(), Json::Str("s1".to_string())),
        ("name".to_string(), Json::Str("meow".to_string())),
    ]);
    members.push((
        "sprite".to_string(),
        Json::Object(vec![
            ("pictures".to_string(), Json::Array(vec![])),
            ("sounds".to_string(), Json::Array(vec![sound])),
        ]),
    ));
    let doc = Json::Object(vec![("objects".to_string(), Json::Array(vec![Json::Object(members)]))]);
    let assets = AssetMap::from_project_value(&doc);
    assert_eq!(assets.sound_name_by_id("cat", "s1"), Some("meow"));
    assert_eq!(assets.sound_id_by_name("Cat", "meow"), Some("s1"));
    assert_eq!(assets.object_name_by_id("o1"), Some("Cat"));
    assert_eq!(assets.object_name_by_id("mouse"), Some("mouse"));

    let program = Program {
        stmts: vec![Stmt::Expr(Expr::Call(
            FuncRef { name: "play_bgm".to_string(), arity: 1 },
            vec![Expr::Str("s1".to_string())],
        ))],
    };
    let resolved = entrycore::script::resolve_asset_ids(program, &assets, "Cat");
    match &resolved.stmts[0] {
        Stmt::Expr(Expr::Call(_, args)) => match &args[0] {
            Expr::Str(s) => assert_eq!(s, "meow"),
            other => panic!("unexpected {:?}", other),
        },
        other => panic!("unexpected {:?}", other),
    }
    let none = program_from_script_string_with_vars_and_assets("[]", &VarMap::new(), &assets, "Cat").unwrap();
    assert!(none.stmts.is_empty());
}

#[test]
fn emit_wraps_top_level_statements_in_the_start_trigger() {
    let program = Program {
        stmts: vec![
            Stmt::SetVar(VarRef::new("x"), Expr::Int(1)),
            Stmt::FuncDef {
                name: "f".to_string(),
                params: vec![("a".to_string(), entrycore::ir::ParamKind::Bool)],
                return_type: None,
                body: vec![Stmt::Break],
            },
            Stmt::Expr(Expr::Str("q\"".to_string())),
        ],
    };
    let text = emit_with_var_map(&program, &VarMap::new()).unwrap();
    assert_eq!(
        text,
        "fn when_start() {\n    x = 1;\n}\n\nfn f(a: bool) {\n    break;\n}\n\nfn when_start() {\n    \"q\\\"\";\n}\n\n"
    );
}

#[test]
fn picture_ids_in_loops_become_names() {
    let pic = Json::Object(vec![
        ("id".to_string(), Json::Str("p1".to_string())),
        ("name".to_string(), Json::Str("walk".to_string())),
    ]);
    let object = Json::Object(vec![
        ("name".to_string(), Json::Str("Hero".to_string())),
        (
            "sprite".to_string(),
            Json::Object(vec![("pictures".to_string(), Json::Array(vec![pic]))]),
        ),
    ]);
    let doc = Json::Object(vec![("objects".to_string(), Json::Array(vec![object]))]);
    let assets = AssetMap::from_project_value(&doc);
    let program = Program {
        stmts: vec![Stmt::Loop {
            body: vec![Stmt::Expr(Expr::Call(
                FuncRef { name: "change_to_some_shape".to_string(), arity: 1 },
                vec![Expr::Str("p1".to_string())],
            ))],
        }],
    };
    let resolved = entrycore::script::resolve_asset_ids(program, &assets, "hero");
    match &resolved.stmts[0] {
        Stmt::Loop { body } => match &body[0] {
            Stmt::Expr(Expr::Call(_, args)) => assert!(matches!(&args[0], Expr::Str(s) if s == "walk")),
            other => panic!("unexpected {:?}", other),
        },
        other => panic!("unexpected {:?}", other),
    }
}

#[test]
fn script_shape_errors_have_their_messages() {
    match program_from_script_string("{}") {
        Err(entrycore::error::Error::Parse(m)) => assert_eq!(m, "script root must be array"),
        other => panic!("unexpected {:?}", other.map(|p| p.stmts.len())),
    }
    match program_from_script_string("[1]") {
        Err(entrycore::error::Error::Parse(m)) => assert_eq!(m, "script thread must be array"),
        other => panic!("unexpected {:?}", other.map(|p| p.stmts.len())),
    }
    assert!(program_from_script_string("[[]]").unwrap().stmts.is_empty());
    let bad = Json::Str("x".to_string());
    match entrycore::deparse::block_from_value(&bad, &VarMap::new()) {
        Err(entrycore::error::Error::Parse(m)) => assert_eq!(m, "block must be object"),
        _ => panic!("expected a parse error"),
    }
    let unknown = Json::Object(vec![("type".to_string(), Json::Str("zz_block".to_string()))]);
    match entrycore::deparse::block_from_value(&unknown, &VarMap::new()) {
        Err(entrycore::error::Error::UnmappedBlock(m)) => assert_eq!(m, "entry block type: zz_block"),
        _ => panic!("expected an unmapped block"),
    }
}

#[test]
fn asset_names_pass_a_read_error_on() {
    let read = program_from_script_string("{}");
    let r = entrycore::script::with_asset_names(read, &AssetMap::default(), "cat");
    match r {
        Err(entrycore::error::Error::Parse(m)) => assert_eq!(m, "script root must be array"),
        other => panic!("unexpected {:?}", other.map(|p| p.stmts.len())),
    }
    let r2 = program_from_script_string_with_vars_and_assets("[1]", &VarMap::new(), &AssetMap::default(), "cat");
    match r2 {
        Err(entrycore::error::Error::Parse(m)) => assert_eq!(m, "script thread must be array"),
        other => panic!("unexpected {:?}", other.map(|p| p.stmts.len())),
    }
}
