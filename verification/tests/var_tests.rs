use entrycore::codegen::collect_var_map;
use entrycore::ir::{Expr, FuncRef, Program, Stmt, VarRef, VarScope};
use entrycore::var::{VarInfo, VarInit, VarKind, VarMap};

#[test]
fn insert_then_get() {
    let mut m = VarMap::new();
    assert!(m.is_empty());
    m.insert(VarInfo {
        id: "id1".to_string(),
        name: "x".to_string(),
        original_name: "x".to_string(),
        kind: VarKind::Variable,
        init: VarInit::Int0,
        scope: VarScope::Local,
    });
    assert!(!m.is_empty());
    assert_eq!(m.get("id1").map(|v| v.name.as_str()), Some("x"));
    assert_eq!(m.id_by_name("x"), Some("id1"));
    assert_eq!(m.name_by_id("id1"), Some("x"));
    assert_eq!(m.iter().len(), 1);
}

#[test]
fn program_variables_get_kinds() {
    let program = Program {
        stmts: vec![
            Stmt::VarDecl("c".to_string(), Expr::Int(0), Some(VarKind::Cloud), VarScope::Global),
            Stmt::SetVar(VarRef::new("items"), Expr::Int(1)),
            Stmt::Expr(Expr::Call(
                FuncRef { name: "add_value_to_list".to_string(), arity: 2 },
                vec![Expr::Int(3), Expr::Var("items".to_string())],
            )),
            Stmt::SetVar(VarRef::new("timer"), Expr::Int(0)),
        ],
    };
    let m = collect_var_map(&program, &VarMap::new());
    assert_eq!(m.get_by_name("c").map(|v| v.kind), Some(VarKind::Cloud));
    assert_eq!(m.get_by_name("c").map(|v| v.scope), Some(VarScope::Global));
    assert_eq!(m.get_by_name("items").map(|v| v.kind), Some(VarKind::List));
    assert_eq!(m.get_by_name("timer").map(|v| v.kind), Some(VarKind::Timer));
    let id = entrycore::block::names::id_for("c");
    assert_eq!(m.get(id.as_str()).map(|v| v.name.as_str()), Some("c"));
}

#[test]
fn generate_sets_scripts_and_variables() {
    let program = Program { stmts: vec![Stmt::SetVar(VarRef::new("x"), Expr::Int(1))] };
    let p = entrycore::codegen::generate(&program, &entrycore::json::Json::Null).unwrap();
    let t = entrycore::json::to_json_text(&p);
    assert!(t.starts_with("{\"scripts\":[{\"params\":["));
    assert!(t.contains("\"type\":\"set_variable\""));
    assert!(t.contains("\"variables\":[{\"id\":\""));
}

fn var(id: &str, name: &str) -> VarInfo {
    VarInfo {
        id: id.to_string(),
        name: name.to_string(),
        original_name: name.to_string(),
        kind: VarKind::Variable,
        init: VarInit::Int0,
        scope: VarScope::Global,
    }
}

#[test]
fn a_name_finds_the_last_variable_inserted_under_it() {
    let mut m = VarMap::new();
    m.insert(var("a1", "score"));
    m.insert(var("b2", "lives"));
    m.insert(var("c3", "score"));
    assert_eq!(m.get_by_name("score").map(|v| v.id.as_str()), Some("c3"));
    assert_eq!(m.get_by_name("lives").map(|v| v.id.as_str()), Some("b2"));
    assert!(m.get_by_name("speed").is_none());
    assert_eq!(m.get("a1").map(|v| v.name.as_str()), Some("score"));
}
