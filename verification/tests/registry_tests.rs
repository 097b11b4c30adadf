use entrycore::block::registry::{BlockRegistry, BlockSchema, SchemaDump, SchemaGroup, SchemaReport, Violation};

fn schema(skeleton: Option<&str>, def_type: Option<&str>, has_func: bool, params: Option<Vec<Option<&str>>>, count: usize) -> BlockSchema {
    BlockSchema {
        skeleton: skeleton.map(|s| s.to_string()),
        color: None,
        outer_line: None,
        def_type: def_type.map(|s| s.to_string()),
        has_func,
        class: None,
        params: params.map(|v| v.into_iter().map(|p| p.map(|s| s.to_string())).collect()),
        param_count: count,
    }
}

fn dump() -> SchemaDump {
    SchemaDump {
        generated: String::new(),
        source: String::new(),
        total: 3,
        group_count: 1,
        groups: vec![SchemaGroup {
            group: "basic".to_string(),
            file: "block_basic.js".to_string(),
            count: 3,
            blocks: vec![
                ("ok".to_string(), schema(Some("basic"), Some("ok"), true, Some(vec![Some("Block")]), 1)),
                ("bad".to_string(), schema(None, Some("other"), false, Some(vec![None, Some("x")]), 1)),
                ("label".to_string(), schema(Some("basic_text"), None, false, None, 0)),
            ],
        }],
    }
}

#[test]
fn schema_checks_every_block() {
    let report = BlockRegistry::new().validate_schema(&dump());
    assert_eq!(report.total_blocks, 3);
    let details: Vec<(&str, &str)> = report.violations.iter().map(|v| (v.check, v.detail.as_str())).collect();
    assert_eq!(
        details,
        vec![
            ("skeleton_present", "skeleton missing or empty: None"),
            ("def_type_match", "def.type='other' != block id 'bad'"),
            ("params_consistent", "params len 2 != paramCount 1"),
            ("params_typed", "param[0] has no type"),
        ]
    );
    assert!(!report.is_clean());
    assert_eq!(report.count_by_check("params_typed"), 1);
    assert_eq!(report.count_by_check("func_expected"), 0);
    assert_eq!(
        report.counts_by_check(),
        vec![("def_type_match", 1), ("params_consistent", 1), ("params_typed", 1), ("skeleton_present", 1)]
    );
}

#[test]
fn executable_skeleton_needs_a_function() {
    let d = SchemaDump {
        generated: String::new(),
        source: String::new(),
        total: 1,
        group_count: 1,
        groups: vec![SchemaGroup {
            group: "g".to_string(),
            file: "f".to_string(),
            count: 1,
            blocks: vec![("b".to_string(), schema(Some(""), None, false, None, 0))],
        }],
    };
    let report = BlockRegistry::new().validate_schema(&d);
    let checks: Vec<&str> = report.violations.iter().map(|v| v.check).collect();
    assert_eq!(checks, vec!["skeleton_present", "func_expected"]);
    assert_eq!(report.violations[0].detail, "skeleton missing or empty: Some(\"\")");
    assert_eq!(report.violations[1].detail, "executable skeleton '' missing func");
}

#[test]
fn clean_report() {
    let r = SchemaReport { total_blocks: 0, violations: Vec::<Violation>::new() };
    assert!(r.is_clean());
    assert!(r.counts_by_check().is_empty());
}

#[test]
fn check_counts_add_up_to_the_violations() {
    let report = BlockRegistry::new().validate_schema(&dump());
    let names = ["skeleton_present", "def_type_match", "params_consistent", "params_typed", "func_expected"];
    let sum: usize = names.iter().map(|c| report.count_by_check(c)).sum();
    assert_eq!(sum, report.violations.len());
    assert_eq!(report.count_by_check("no_such_check"), 0);
    let pairs: usize = report.counts_by_check().iter().map(|(_, n)| *n).sum();
    assert_eq!(pairs, report.violations.len());
}
