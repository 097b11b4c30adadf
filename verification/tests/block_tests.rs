use entrycore::block::lower::from_stmt;
use entrycore::ir::{Expr, Stmt};
use entrycore::block::encode::to_value;
use entrycore::block::to_value_with_assets;
use entrycore::deparse::collect_unmapped_blocks;
use entrycore::block::kinds::BasicKind;
use entrycore::block::{Block, ParamBlock, SlotValue};
use entrycore::deparse::block_from_value;
use entrycore::json::{to_json_text, Json};
use entrycore::var::VarMap;

#[test]
fn written_block_reads_back() {
    let b = Block::Basic {
        kind: BasicKind::MoveX,
        slots: vec![SlotValue::Param(ParamBlock::Number("10".to_string())), SlotValue::Empty],
    };
    let j = to_value(&b).unwrap();
    assert_eq!(to_json_text(&j), "{\"params\":[{\"params\":[10],\"type\":\"number\"},null],\"type\":\"move_x\"}");
    let back = block_from_value(&j, &VarMap::new()).unwrap();
    assert_eq!(to_json_text(&to_value(&back).unwrap()), to_json_text(&j));
}

#[test]
fn block_type_and_category() {
    let b = Block::Basic { kind: BasicKind::WhenStart, slots: vec![] };
    assert_eq!(b.type_id(), "when_run");
    let t = Block::Text("hi".to_string());
    assert_eq!(t.type_id(), "text");
}

fn cat_assets() -> entrycore::asset::AssetMap {
    let entry = |id: &str, name: &str| {
        Json::Object(vec![
            ("id".to_string(), Json::Str(id.to_string())),
            ("name".to_string(), Json::Str(name.to_string())),
        ])
    };
    let sprite = Json::Object(vec![
        ("pictures".to_string(), Json::Array(vec![entry("p1", "walk")])),
        ("sounds".to_string(), Json::Array(vec![entry("s1", "meow")])),
    ]);
    let object = Json::Object(vec![
        ("name".to_string(), Json::Str("Cat".to_string())),
        ("id".to_string(), Json::Str("o1".to_string())),
        ("sprite".to_string(), sprite),
    ]);
    let doc = Json::Object(vec![("objects".to_string(), Json::Array(vec![object]))]);
    entrycore::asset::AssetMap::from_project_value(&doc)
}

#[test]
fn picture_and_sound_names_become_ids() {
    let assets = cat_assets();
    let shape = Block::ChangeToSomeShape { picture: "walk".to_string() };
    let j = to_value_with_assets(&shape, &assets, "Cat").unwrap();
    assert_eq!(
        to_json_text(&j),
        "{\"params\":[{\"params\":[\"p1\"],\"type\":\"get_pictures\"},null],\"type\":\"change_to_some_shape\"}"
    );
    let unknown = Block::ChangeToSomeShape { picture: "run".to_string() };
    let j = to_value_with_assets(&unknown, &assets, "Cat").unwrap();
    assert!(to_json_text(&j).contains("\"run\""));

    let play = Block::Basic {
        kind: BasicKind::SoundSomethingWithBlock,
        slots: vec![SlotValue::Param(ParamBlock::Text("meow".to_string())), SlotValue::Empty],
    };
    let j = to_value_with_assets(&play, &assets, "cat").unwrap();
    assert_eq!(
        to_json_text(&j),
        "{\"params\":[{\"params\":[\"s1\"],\"type\":\"get_sounds\"},null],\"type\":\"sound_something_with_block\"}"
    );
}

#[test]
fn unknown_sound_to_play_is_a_semantic_error() {
    let assets = cat_assets();
    let play = Block::Basic {
        kind: BasicKind::PlayBgm,
        slots: vec![SlotValue::Param(ParamBlock::Text("bark".to_string())), SlotValue::Empty],
    };
    match to_value_with_assets(&play, &assets, "Cat") {
        Err(entrycore::error::Error::Semantic(m)) => assert_eq!(m, "Cat: sound not found: bark"),
        other => panic!("unexpected {:?}", other),
    }
}

#[test]
fn nested_sound_lengths_get_ids() {
    let assets = cat_assets();
    let length = Block::Basic {
        kind: BasicKind::GetSoundDuration,
        slots: vec![SlotValue::Empty, SlotValue::Name("meow".to_string()), SlotValue::Empty],
    };
    let j = to_value_with_assets(&length, &assets, "Cat").unwrap();
    assert_eq!(to_json_text(&j), "{\"params\":[null,\"s1\",null],\"type\":\"get_sound_duration\"}");
    let wait = Block::Basic {
        kind: BasicKind::WaitSeconds,
        slots: vec![SlotValue::Param(ParamBlock::Sub(Box::new(length))), SlotValue::Empty],
    };
    let j = to_value_with_assets(&wait, &assets, "Cat").unwrap();
    assert!(to_json_text(&j).contains("\"params\":[null,\"s1\",null]"));
}

#[test]
fn unreadable_blocks_are_counted_most_frequent_first() {
    let block = |t: &str, params: Vec<Json>| {
        Json::Object(vec![
            ("type".to_string(), Json::Str(t.to_string())),
            ("params".to_string(), Json::Array(params)),
        ])
    };
    let nested = block("zeta_block", vec![]);
    let holder = Json::Object(vec![
        ("type".to_string(), Json::Str("repeat_inf".to_string())),
        ("params".to_string(), Json::Array(vec![])),
        (
            "statements".to_string(),
            Json::Array(vec![Json::Array(vec![block("alpha_block", vec![]), block("zeta_block", vec![nested])])]),
        ),
    ]);
    let scripts = Json::Array(vec![Json::Array(vec![
        block("when_run_button_click", vec![]),
        block("beta_block", vec![]),
        holder,
    ])]);
    let counts = collect_unmapped_blocks(&scripts, &VarMap::new());
    let names: Vec<(&str, usize)> = counts.iter().map(|(n, c)| (n.as_str(), *c)).collect();
    assert_eq!(names[0], ("zeta_block", 2));
    assert!(names.contains(&("alpha_block", 1)));
    assert!(names.contains(&("beta_block", 1)));
    let alpha = names.iter().position(|p| p.0 == "alpha_block").unwrap();
    let beta = names.iter().position(|p| p.0 == "beta_block").unwrap();
    assert!(alpha < beta);
    assert!(!names.iter().any(|p| p.0 == "when_run_button_click"));
}

#[test]
fn for_loop_steps_by_one_point_zero() {
    let stmt = Stmt::For {
        var: "i".to_string(),
        iter: Expr::Range(Box::new(Expr::Int(0)), Box::new(Expr::Int(3))),
        body: vec![Stmt::Break],
    };
    let b = from_stmt(&stmt).unwrap();
    let text = to_json_text(&to_value(&b).unwrap());
    assert!(text.contains("change_variable"));
    assert!(text.contains("{\"params\":[1.0],\"type\":\"number\"}"));
    assert!(text.contains("{\"params\":[0.0],\"type\":\"number\"}"));
    assert!(!text.contains("[1]"));
}

fn named(id: &str, name: &str, extra: Vec<(String, Json)>) -> Json {
    let mut members = vec![
        ("id".to_string(), Json::Str(id.to_string())),
        ("name".to_string(), Json::Str(name.to_string())),
    ];
    members.extend(extra);
    Json::Object(members)
}

#[test]
fn asset_names_and_ids_invert_each_other() {
    let sprite = Json::Object(vec![(
        "pictures".to_string(),
        Json::Array(vec![named("p1", "walk", vec![]), named("p2", "run", vec![])]),
    )]);
    let cat = named("o1", "Cat", vec![("sprite".to_string(), sprite)]);
    let dog = named("o2", "Dog", vec![]);
    let doc = Json::Object(vec![("objects".to_string(), Json::Array(vec![cat, dog]))]);
    let m = entrycore::asset::AssetMap::from_project_value(&doc);
    assert_eq!(m.picture_name_by_id("Cat", "p2"), Some("run"));
    assert_eq!(m.picture_id_by_name("cat", "run"), Some("p2"));
    assert_eq!(m.picture_name_by_id("Cat", m.picture_id_by_name("Cat", "walk").unwrap()), Some("walk"));
    assert_eq!(m.object_name_by_id("o2"), Some("Dog"));
    assert_eq!(m.object_id_by_name("Dog"), Some("o2"));
    assert_eq!(m.object_id_by_name("dog"), None);
    assert_eq!(m.object_id_by_name("mouse"), Some("mouse"));
    assert_eq!(m.object_name_by_id("self"), Some("self"));
    let d = entrycore::asset::AssetMap::default();
    assert_eq!(d.object_id_by_name("self"), Some("self"));
    assert_eq!(d.object_id_by_name("Cat"), None);
}

#[test]
fn a_repeated_object_name_leads_to_the_last_object() {
    let doc = Json::Object(vec![(
        "objects".to_string(),
        Json::Array(vec![named("o1", "Cat", vec![]), named("o2", "Cat", vec![])]),
    )]);
    let m = entrycore::asset::AssetMap::from_project_value(&doc);
    assert_eq!(m.object_id_by_name("Cat"), Some("o2"));
    assert_eq!(m.object_name_by_id("o1"), Some("Cat"));
}
