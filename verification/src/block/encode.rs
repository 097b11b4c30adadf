//! Writing blocks as Entry JSON.
//!
//! A block is written as `{"type": .., "params": [..]}`, with a
//! `"statements"` array of threads for blocks that hold other blocks.

use vstd::prelude::*;

use crate::block::kinds::{
    basic_category, basic_category_of, basic_name, basic_type_name, layout, special_name,
    special_type_name, BasicKind, Slot, SpecialType,
};
use crate::block::names::{
    dialog_mode_name, dialog_mode_to_str, dim_name, dim_to_str, effect_name, effect_to_str,
    id_for, id_text, kind_for, kind_name, kind_of_name, kind_to_str, math_op_name,
    math_op_to_name, op_str, op_symbol, qam_name, qam_to_str, text_effect_name,
    text_effect_to_str,
};
use crate::block::{
    block_views, lemma_block_seq_view, lemma_param_seq_view, lemma_slot_seq_view, param_views,
    Block, BlockV, Category, ParamBlock, ParamV, SlotV, SlotValue,
};
use crate::ir::UnaryOp;
use crate::json::{json_views, Json, JsonV};

verus! {

/// `{"type": t, "params": params}`.
pub open spec fn block_json(t: Seq<char>, params: Seq<JsonV>) -> JsonV {
    JsonV::Object(seq![("type"@, JsonV::Str(t)), ("params"@, JsonV::Array(params))])
}

/// `{"type": t, "params": params, "statements": threads}`.
pub open spec fn block_json_with(t: Seq<char>, params: Seq<JsonV>, threads: Seq<JsonV>) -> JsonV {
    JsonV::Object(
        seq![
            ("type"@, JsonV::Str(t)),
            ("params"@, JsonV::Array(params)),
            ("statements"@, JsonV::Array(threads)),
        ],
    )
}

/// A variable or list dropdown: `{"id", "name", "variableType"}`.
pub open spec fn var_json(name: Seq<char>, var_type: Seq<char>) -> JsonV {
    JsonV::Object(
        seq![
            ("id"@, JsonV::Str(id_text(name))),
            ("name"@, JsonV::Str(name)),
            ("variableType"@, JsonV::Str(var_type)),
        ],
    )
}

/// Dropdown of a variable; its type follows from its name.
pub open spec fn variable_json(name: Seq<char>) -> JsonV {
    var_json(name, kind_name(kind_of_name(name)))
}

/// Dropdown of a list.
pub open spec fn list_json(name: Seq<char>) -> JsonV {
    var_json(name, "list"@)
}

/// Symbol written for a unary operator.
pub open spec fn unary_symbol(op: UnaryOp) -> Seq<char> {
    match op {
        UnaryOp::Neg => "-"@,
        UnaryOp::Not => "!"@,
    }
}

/// Entry type name of a block.
pub open spec fn block_type_name(b: BlockV) -> Seq<char> {
    match b {
        BlockV::Basic(k, _) => basic_name(k),
        _ => special_name(special_of(b)),
    }
}

/// Type name group of a block that is not a fixed-shape block.
pub open spec fn special_of(b: BlockV) -> SpecialType {
    match b {
        BlockV::ReachSomeThing(_) => SpecialType::ReachSomething,
        BlockV::CalcBinOp(..) => SpecialType::CalcBasic,
        BlockV::Compare(..) => SpecialType::BooleanBasic,
        BlockV::BoolOp(..) => SpecialType::BooleanAndOr,
        BlockV::UnaryOp(..) => SpecialType::CalcUnary,
        BlockV::CalcOperation(..) => SpecialType::CalcOperation,
        BlockV::CalcRand(..) => SpecialType::CalcRand,
        BlockV::QuotientAndMod(..) => SpecialType::QuotientAndMod,
        BlockV::ChooseProjectTimerAction(_) => SpecialType::ChooseProjectTimerAction,
        BlockV::SetVisibleProjectTimer(_) => SpecialType::SetVisibleProjectTimer,
        BlockV::SetVisibleAnswer(_) => SpecialType::SetVisibleAnswer,
        BlockV::Number(_) => SpecialType::Number,
        BlockV::Text(_) => SpecialType::Text,
        BlockV::Boolean(_) => SpecialType::Boolean,
        BlockV::Angle(_) => SpecialType::Angle,
        BlockV::Color(_) => SpecialType::Color,
        BlockV::StringConcat(_) => SpecialType::StringConcat,
        BlockV::FuncCall(..) => SpecialType::FunctionCall,
        BlockV::FuncDef(..) => SpecialType::FunctionCreate,
        BlockV::Return(_) => SpecialType::FunctionReturn,
        BlockV::If(..) => SpecialType::If,
        BlockV::IfElse(..) => SpecialType::IfElse,
        BlockV::While(..) => SpecialType::RepeatWhile,
        BlockV::Repeat(..) => SpecialType::RepeatBasic,
        BlockV::Forever(_) => SpecialType::RepeatForever,
        BlockV::Dialog(..) => SpecialType::Dialog,
        BlockV::DialogTime(..) => SpecialType::DialogTime,
        BlockV::ChangeToSomeShape(_) => SpecialType::ChangeToSomeShape,
        BlockV::AddEffectAmount(..) => SpecialType::AddEffectAmount,
        BlockV::ChangeEffectAmount(..) => SpecialType::ChangeEffectAmount,
        BlockV::StretchScaleSize(..) => SpecialType::StretchScaleSize,
        BlockV::TextChangeEffect(..) => SpecialType::TextChangeEffect,
        BlockV::TextChangeFont(_) => SpecialType::TextChangeFont,
        BlockV::Basic(..) => SpecialType::Number,
    }
}

/// Category of a block.
pub open spec fn block_category(b: BlockV) -> Category {
    match b {
        BlockV::Basic(k, _) => basic_category(k),
        BlockV::ReachSomeThing(_) => Category::Judgment,
        BlockV::StringConcat(_) => Category::String,
        BlockV::FuncCall(..) | BlockV::FuncDef(..) | BlockV::Return(_) => Category::Define,
        BlockV::If(..) | BlockV::IfElse(..) | BlockV::While(..) | BlockV::Repeat(..)
        | BlockV::Forever(_) => Category::Flow,
        BlockV::SetVisibleAnswer(_) => Category::Variable,
        BlockV::Dialog(..) | BlockV::DialogTime(..) | BlockV::ChangeToSomeShape(_)
        | BlockV::AddEffectAmount(..) | BlockV::ChangeEffectAmount(..)
        | BlockV::StretchScaleSize(..) => Category::Looks,
        BlockV::TextChangeEffect(..) | BlockV::TextChangeFont(_) => Category::Text,
        _ => Category::Calc,
    }
}

/// JSON of a parameter value.
pub open spec fn enc_param(p: ParamV) -> JsonV
    decreases p, 0int,
{
    match p {
        ParamV::Null => JsonV::Null,
        ParamV::Number(n) => block_json("number"@, seq![JsonV::Number(n)]),
        ParamV::Text(s) => block_json("text"@, seq![JsonV::Str(s)]),
        ParamV::Boolean(b) => block_json("boolean"@, seq![JsonV::Bool(b)]),
        ParamV::Variable(n) => variable_json(n),
        ParamV::Sub(b) => enc_block(*b),
    }
}

/// JSON of a sequence of parameter values.
pub open spec fn enc_params(ps: Seq<ParamV>) -> Seq<JsonV>
    decreases ps, 0int,
{
    Seq::new(
        ps.len(),
        |i: int|
            if 0 <= i < ps.len() {
                enc_param(ps[i])
            } else {
                JsonV::Null
            },
    )
}

/// JSON of one slot of a fixed-shape block.
pub open spec fn enc_slot(slot: Slot, v: SlotV) -> JsonV
    decreases v, 0int,
{
    match v {
        SlotV::Param(p) => enc_param(p),
        SlotV::Name(n) => match slot {
            Slot::Var => variable_json(n),
            Slot::List => list_json(n),
            _ => JsonV::Str(n),
        },
        SlotV::Empty => JsonV::Null,
    }
}

/// Slot `i` of the layout of `k` (`Empty` past its end).
pub open spec fn slot_at(k: BasicKind, i: int) -> Slot {
    if 0 <= i < layout(k).len() {
        layout(k)[i]
    } else {
        Slot::Empty
    }
}

/// JSON of the slots of a fixed-shape block of kind `k`.
pub open spec fn enc_slots(k: BasicKind, vs: Seq<SlotV>) -> Seq<JsonV>
    decreases vs, 0int,
{
    Seq::new(
        vs.len(),
        |i: int|
            if 0 <= i < vs.len() {
                enc_slot(slot_at(k, i), vs[i])
            } else {
                JsonV::Null
            },
    )
}

/// JSON of each block of a sequence.
pub open spec fn enc_blocks(bs: Seq<BlockV>) -> Seq<JsonV>
    decreases bs, 0int,
{
    Seq::new(
        bs.len(),
        |i: int|
            if 0 <= i < bs.len() {
                enc_block(bs[i])
            } else {
                JsonV::Null
            },
    )
}

/// A thread: the JSON array of a sequence of blocks.
pub open spec fn enc_thread(bs: Seq<BlockV>) -> JsonV {
    JsonV::Array(enc_blocks(bs))
}

/// Parameters written for a block.
pub open spec fn enc_block_params(b: BlockV) -> Seq<JsonV>
    decreases b, 0int,
{
    match b {
        BlockV::Basic(k, slots) => enc_slots(k, slots),
        BlockV::ReachSomeThing(target) => seq![JsonV::Str(target), JsonV::Null],
        BlockV::CalcBinOp(op, l, r) => seq![enc_param(l), JsonV::Str(op_symbol(op)), enc_param(r)],
        BlockV::Compare(op, l, r) => seq![enc_param(l), JsonV::Str(op_symbol(op)), enc_param(r)],
        BlockV::BoolOp(op, l, r) => seq![enc_param(l), JsonV::Str(op_symbol(op)), enc_param(r)],
        BlockV::UnaryOp(op, e) => seq![enc_param(e), JsonV::Str(unary_symbol(op)), JsonV::Null],
        BlockV::CalcOperation(op, e) => seq![JsonV::Str(math_op_name(op)), enc_param(e)],
        BlockV::CalcRand(lo, hi) => seq![enc_param(lo), enc_param(hi)],
        BlockV::QuotientAndMod(a, b2, m) => seq![enc_param(a), enc_param(b2), JsonV::Str(qam_name(m))],
        BlockV::ChooseProjectTimerAction(a) => seq![JsonV::Str(a)],
        BlockV::SetVisibleProjectTimer(v) => seq![JsonV::Bool(v), JsonV::Null],
        BlockV::SetVisibleAnswer(v) => seq![JsonV::Bool(v), JsonV::Null],
        BlockV::Number(n) => seq![JsonV::Number(n)],
        BlockV::Text(s) => seq![JsonV::Str(s)],
        BlockV::Boolean(v) => seq![JsonV::Bool(v)],
        BlockV::Angle(n) => seq![JsonV::Number(n)],
        BlockV::Color(s) => seq![JsonV::Str(s)],
        BlockV::StringConcat(parts) => enc_params(parts),
        BlockV::FuncCall(name, args) => seq![JsonV::Str(name), JsonV::Null, JsonV::Array(enc_params(args))],
        BlockV::FuncDef(name, params, body) => seq![
                JsonV::Str(name),
                JsonV::Array(params.map_values(|p: Seq<char>| JsonV::Str(p))),
            ],
        BlockV::Return(v) => seq![
                match v {
                    Some(p) => enc_param(p),
                    None => JsonV::Null,
                },
            ],
        BlockV::If(c, body) => seq![enc_param(c), JsonV::Null],
        BlockV::IfElse(c, tb, eb) => seq![enc_param(c), JsonV::Null],
        BlockV::While(c, body) => seq![enc_param(c), JsonV::Null],
        BlockV::Repeat(n, body) => seq![enc_param(n), JsonV::Null],
        BlockV::Forever(body) => seq![],
        BlockV::Dialog(m, c) => seq![enc_param(c), JsonV::Str(dialog_mode_name(m)), JsonV::Null],
        BlockV::DialogTime(m, c, tm) => seq![enc_param(c), JsonV::Str(dialog_mode_name(m)), enc_param(tm), JsonV::Null],
        BlockV::ChangeToSomeShape(p) => seq![block_json("get_pictures"@, seq![JsonV::Str(p)]), JsonV::Null],
        BlockV::AddEffectAmount(e, a) => seq![JsonV::Str(effect_name(e)), enc_param(a), JsonV::Null],
        BlockV::ChangeEffectAmount(e, a) => seq![JsonV::Str(effect_name(e)), enc_param(a), JsonV::Null],
        BlockV::StretchScaleSize(d, v) => seq![JsonV::Str(dim_name(d)), enc_param(v), JsonV::Null],
        BlockV::TextChangeEffect(e, on) => seq![
                JsonV::Str(text_effect_name(e)),
                JsonV::Str(
                    if on {
                        "on"@
                    } else {
                        "off"@
                    },
                ),
                JsonV::Null,
            ],
        BlockV::TextChangeFont(f) => seq![JsonV::Str(f), JsonV::Null],
    }
}

/// Threads written for a block that holds other blocks.
pub open spec fn enc_block_threads(b: BlockV) -> Option<Seq<JsonV>>
    decreases b, 0int,
{
    match b {
        BlockV::FuncDef(name, params, body) => Some(seq![JsonV::Array(enc_blocks(body))]),
        BlockV::If(c, body) => Some(seq![JsonV::Array(enc_blocks(body))]),
        BlockV::IfElse(c, tb, eb) => Some(seq![JsonV::Array(enc_blocks(tb)), JsonV::Array(enc_blocks(eb))]),
        BlockV::While(c, body) => Some(seq![JsonV::Array(enc_blocks(body))]),
        BlockV::Repeat(n, body) => Some(seq![JsonV::Array(enc_blocks(body))]),
        BlockV::Forever(body) => Some(seq![JsonV::Array(enc_blocks(body))]),
        _ => None,
    }
}

/// A block's JSON from its type name, parameters and threads.
pub open spec fn assemble(t: Seq<char>, params: Seq<JsonV>, threads: Option<Seq<JsonV>>) -> JsonV {
    match threads {
        Some(th) => block_json_with(t, params, th),
        None => block_json(t, params),
    }
}

/// JSON of a block.
pub open spec fn enc_block(b: BlockV) -> JsonV
    decreases b, 1int,
{
    assemble(block_type_name(b), enc_block_params(b), enc_block_threads(b))
}

fn string_of(s: &str) -> (r: String)
    ensures
        r@ == s@,
{
    s.to_owned()
}

pub(crate) fn json_block(t: &str, params: Vec<Json>) -> (r: Json)
    ensures
        r@ == block_json(t@, json_views(params@)),
{
    let ghost pv = params@;
    proof {
        crate::json::lemma_array_view(params);
    }
    let members = vec![
        (string_of("type"), Json::Str(string_of(t))),
        (string_of("params"), Json::Array(params)),
    ];
    proof {
        crate::json::lemma_object_view(members);
        assert(crate::json::member_views(members@) =~= seq![
            ("type"@, JsonV::Str(t@)),
            ("params"@, JsonV::Array(json_views(pv))),
        ]);
    }
    Json::Object(members)
}

fn block1(t: &str, a: Json) -> (r: Json)
    ensures
        r@ == block_json(t@, seq![a@]),
{
    let ghost av = a@;
    let v = vec![a];
    proof {
        assert(json_views(v@) =~= seq![av]);
    }
    json_block(t, v)
}

fn block2(t: &str, a: Json, b: Json) -> (r: Json)
    ensures
        r@ == block_json(t@, seq![a@, b@]),
{
    let ghost av = a@;
    let ghost bv = b@;
    let v = vec![a, b];
    proof {
        assert(json_views(v@) =~= seq![av, bv]);
    }
    json_block(t, v)
}

fn block3(t: &str, a: Json, b: Json, c: Json) -> (r: Json)
    ensures
        r@ == block_json(t@, seq![a@, b@, c@]),
{
    let ghost av = a@;
    let ghost bv = b@;
    let ghost cv = c@;
    let v = vec![a, b, c];
    proof {
        assert(json_views(v@) =~= seq![av, bv, cv]);
    }
    json_block(t, v)
}

fn block4(t: &str, a: Json, b: Json, c: Json, d: Json) -> (r: Json)
    ensures
        r@ == block_json(t@, seq![a@, b@, c@, d@]),
{
    let ghost av = a@;
    let ghost bv = b@;
    let ghost cv = c@;
    let ghost dv = d@;
    let v = vec![a, b, c, d];
    proof {
        assert(json_views(v@) =~= seq![av, bv, cv, dv]);
    }
    json_block(t, v)
}

fn pair(a: Json, b: Json) -> (r: Vec<Json>)
    ensures
        json_views(r@) == seq![a@, b@],
{
    let ghost av = a@;
    let ghost bv = b@;
    let v = vec![a, b];
    proof {
        assert(json_views(v@) =~= seq![av, bv]);
    }
    v
}

fn one(a: Json) -> (r: Vec<Json>)
    ensures
        json_views(r@) == seq![a@],
{
    let ghost av = a@;
    let v = vec![a];
    proof {
        assert(json_views(v@) =~= seq![av]);
    }
    v
}

fn block_with(t: &str, params: Vec<Json>, threads: Vec<Json>) -> (r: Json)
    ensures
        r@ == block_json_with(t@, json_views(params@), json_views(threads@)),
{
    let ghost pv = params@;
    let ghost tv = threads@;
    proof {
        crate::json::lemma_array_view(params);
        crate::json::lemma_array_view(threads);
    }
    let members = vec![
        (string_of("type"), Json::Str(string_of(t))),
        (string_of("params"), Json::Array(params)),
        (string_of("statements"), Json::Array(threads)),
    ];
    proof {
        crate::json::lemma_object_view(members);
        assert(crate::json::member_views(members@) =~= seq![
            ("type"@, JsonV::Str(t@)),
            ("params"@, JsonV::Array(json_views(pv))),
            ("statements"@, JsonV::Array(json_views(tv))),
        ]);
    }
    Json::Object(members)
}

fn with_cond(t: &str, c: Json, th: Json) -> (r: Json)
    ensures
        r@ == block_json_with(t@, seq![c@, JsonV::Null], seq![th@]),
{
    block_with(t, pair(c, Json::Null), one(th))
}

fn with_cond2(t: &str, c: Json, t1: Json, t2: Json) -> (r: Json)
    ensures
        r@ == block_json_with(t@, seq![c@, JsonV::Null], seq![t1@, t2@]),
{
    block_with(t, pair(c, Json::Null), pair(t1, t2))
}

fn var_dropdown(name: &str, var_type: &str) -> (r: Json)
    ensures
        r@ == var_json(name@, var_type@),
{
    let members = vec![
        (string_of("id"), Json::Str(id_for(name))),
        (string_of("name"), Json::Str(string_of(name))),
        (string_of("variableType"), Json::Str(string_of(var_type))),
    ];
    proof {
        crate::json::lemma_object_view(members);
        assert(crate::json::member_views(members@) =~= seq![
            ("id"@, JsonV::Str(id_text(name@))),
            ("name"@, JsonV::Str(name@)),
            ("variableType"@, JsonV::Str(var_type@)),
        ]);
    }
    Json::Object(members)
}

/// Dropdown of a variable: its id, its name and its type.
pub fn variable_param(name: &str) -> (r: Json)
    ensures
        r@ == variable_json(name@),
{
    let kind = kind_for(name);
    var_dropdown(name, kind_to_str(kind))
}

/// Dropdown of a list.
pub fn list_variable_param(name: &str) -> (r: Json)
    ensures
        r@ == list_json(name@),
{
    var_dropdown(name, "list")
}

/// JSON of a parameter value.
pub fn param_to_value(p: &ParamBlock) -> (r: Json)
    ensures
        r@ == enc_param(p@),
    decreases p, 0nat,
{
    match p {
        ParamBlock::Null => Json::Null,
        ParamBlock::Number(n) => block1("number", Json::Number(n.clone())),
        ParamBlock::Text(s) => block1("text", Json::Str(s.clone())),
        ParamBlock::Boolean(b) => block1("boolean", Json::Bool(*b)),
        ParamBlock::Variable(n) => variable_param(n.as_str()),
        ParamBlock::Sub(b) => block_value(b),
    }
}

fn params_to_values(ps: &Vec<ParamBlock>) -> (r: Vec<Json>)
    ensures
        json_views(r@) == enc_params(param_views(ps@)),
    decreases ps, 1nat,
{
    let mut out: Vec<Json> = Vec::new();
    let mut i: usize = 0;
    while i < ps.len()
        invariant
            i <= ps.len(),
            out@.len() == i,
            forall|j: int| 0 <= j < i ==> (#[trigger] out@[j])@ == enc_param(ps@[j]@),
        decreases ps.len() - i,
    {
        proof {
            vstd::std_specs::vec::axiom_vec_index_decreases(*ps, i as int);
        }
        let v = param_to_value(&ps[i]);
        out.push(v);
        i = i + 1;
    }
    proof {
        assert(json_views(out@) =~= enc_params(param_views(ps@)));
    }
    out
}

fn slots_to_values(k: BasicKind, slots: &Vec<SlotValue>) -> (r: Vec<Json>)
    ensures
        json_views(r@) == enc_slots(k, crate::block::slot_views(slots@)),
    decreases slots, 1nat,
{
    let lay = crate::block::kinds::layout_of(k);
    let mut out: Vec<Json> = Vec::new();
    let mut i: usize = 0;
    while i < slots.len()
        invariant
            i <= slots.len(),
            lay@ == layout(k),
            out@.len() == i,
            forall|j: int|
                0 <= j < i ==> (#[trigger] out@[j])@ == enc_slot(slot_at(k, j), slots@[j]@),
        decreases slots.len() - i,
    {
        proof {
            vstd::std_specs::vec::axiom_vec_index_decreases(*slots, i as int);
        }
        let slot = if i < lay.len() {
            lay[i]
        } else {
            Slot::Empty
        };
        let v = match &slots[i] {
            SlotValue::Param(p) => param_to_value(p),
            SlotValue::Name(n) => match slot {
                Slot::Var => variable_param(n.as_str()),
                Slot::List => list_variable_param(n.as_str()),
                _ => Json::Str(n.clone()),
            },
            SlotValue::Empty => Json::Null,
        };
        out.push(v);
        i = i + 1;
    }
    proof {
        assert(json_views(out@) =~= enc_slots(k, crate::block::slot_views(slots@)));
    }
    out
}

fn thread_value(blocks: &Vec<Block>) -> (r: Json)
    ensures
        r@ == enc_thread(block_views(blocks@)),
    decreases blocks, 1nat,
{
    let mut out: Vec<Json> = Vec::new();
    let mut i: usize = 0;
    while i < blocks.len()
        invariant
            i <= blocks.len(),
            out@.len() == i,
            forall|j: int| 0 <= j < i ==> (#[trigger] out@[j])@ == enc_block(blocks@[j]@),
        decreases blocks.len() - i,
    {
        proof {
            vstd::std_specs::vec::axiom_vec_index_decreases(*blocks, i as int);
        }
        let v = block_value(&blocks[i]);
        out.push(v);
        i = i + 1;
    }
    proof {
        crate::json::lemma_array_view(out);
        assert(json_views(out@) =~= enc_blocks(block_views(blocks@)));
    }
    Json::Array(out)
}

fn block_value(b: &Block) -> (r: Json)
    ensures
        r@ == enc_block(b@),
    decreases b, 2nat,
{
    match b {
        Block::Basic { kind, slots } => {
            proof {
                lemma_slot_seq_view(slots);
            }
            json_block(b.type_id(), slots_to_values(*kind, slots))
        },
        Block::If { .. } | Block::IfElse { .. } | Block::While { .. } | Block::Repeat { .. }
        | Block::Forever { .. } | Block::FuncDef { .. } => flow_value(b),
        Block::Dialog { .. } | Block::DialogTime { .. } | Block::ChangeToSomeShape { .. }
        | Block::AddEffectAmount { .. } | Block::ChangeEffectAmount { .. }
        | Block::StretchScaleSize { .. } | Block::TextChangeEffect { .. }
        | Block::TextChangeFont { .. } | Block::ReachSomeThing { .. }
        | Block::ChooseProjectTimerAction { .. } | Block::SetVisibleProjectTimer { .. }
        | Block::SetVisibleAnswer { .. } => looks_value(b),
        _ => operator_value(b),
    }
}

/// JSON of a function definition.
fn funcdef_value(b: &Block) -> (r: Json)
    requires
        b is FuncDef,
    ensures
        r@ == enc_block(b@),
    decreases b, 0nat,
{
    let t = b.type_id();
    match b {
        Block::FuncDef { name, params, body } => {
            let mut ps: Vec<Json> = Vec::new();
            let mut i: usize = 0;
            while i < params.len()
                invariant
                    i <= params.len(),
                    ps@.len() == i,
                    forall|j: int| 0 <= j < i ==> (#[trigger] ps@[j])@ == JsonV::Str(params@[j]@),
                decreases params.len() - i,
            {
                ps.push(Json::Str(params[i].clone()));
                i = i + 1;
            }
            proof {
                crate::json::lemma_array_view(ps);
                assert(json_views(ps@) =~= params@.map_values(|p: String| p@).map_values(
                    |p: Seq<char>| JsonV::Str(p),
                ));
                lemma_block_seq_view(body);
            }
            let th = thread_value(body);
            block_with(t, pair(Json::Str(name.clone()), Json::Array(ps)), one(th))
        },
        _ => Json::Null,
    }
}

/// JSON of a block that holds threads.
fn flow_value(b: &Block) -> (r: Json)
    requires
        b is If || b is IfElse || b is While || b is Repeat || b is Forever || b is FuncDef,
    ensures
        r@ == enc_block(b@),
    decreases b, 1nat,
{
    let t = b.type_id();
    match b {
        Block::FuncDef { .. } => funcdef_value(b),
        Block::If { cond, body } => {
            proof {
                lemma_block_seq_view(body);
            }
            let c = param_to_value(cond);
            let th = thread_value(body);
            with_cond(t, c, th)
        },
        Block::While { cond, body } => {
            proof {
                lemma_block_seq_view(body);
            }
            let c = param_to_value(cond);
            let th = thread_value(body);
            with_cond(t, c, th)
        },
        Block::Repeat { times, body } => {
            proof {
                lemma_block_seq_view(body);
            }
            let c = param_to_value(times);
            let th = thread_value(body);
            with_cond(t, c, th)
        },
        Block::IfElse { cond, then_body, else_body } => {
            proof {
                lemma_block_seq_view(then_body);
                lemma_block_seq_view(else_body);
            }
            let c = param_to_value(cond);
            let t1 = thread_value(then_body);
            let t2 = thread_value(else_body);
            with_cond2(t, c, t1, t2)
        },
        Block::Forever { body } => {
            proof {
                lemma_block_seq_view(body);
            }
            let th = thread_value(body);
            let e: Vec<Json> = Vec::new();
            proof {
                assert(json_views(e@) =~= Seq::<JsonV>::empty());
            }
            block_with(t, e, one(th))
        },
        _ => Json::Null,
    }
}

/// JSON of a block with dropdown texts.
fn looks_value(b: &Block) -> (r: Json)
    requires
        b is Dialog || b is DialogTime || b is ChangeToSomeShape || b is AddEffectAmount
            || b is ChangeEffectAmount || b is StretchScaleSize || b is TextChangeEffect
            || b is TextChangeFont || b is ReachSomeThing || b is ChooseProjectTimerAction
            || b is SetVisibleProjectTimer || b is SetVisibleAnswer,
    ensures
        r@ == enc_block(b@),
    decreases b, 1nat,
{
    let t = b.type_id();
    match b {
        Block::ReachSomeThing { target } => block2(t, Json::Str(target.clone()), Json::Null),
        Block::ChooseProjectTimerAction { action } => block1(t, Json::Str(action.clone())),
        Block::SetVisibleProjectTimer { value } | Block::SetVisibleAnswer { value } => block2(t, Json::Bool(*value), Json::Null),
        Block::Dialog { mode, content } => {
            let c = param_to_value(content);
            block3(t, c, Json::Str(string_of(dialog_mode_to_str(*mode))), Json::Null)
        },
        Block::DialogTime { mode, content, time } => {
            let c = param_to_value(content);
            let tm = param_to_value(time);
            block4(t, c, Json::Str(string_of(dialog_mode_to_str(*mode))), tm, Json::Null)
        },
        Block::ChangeToSomeShape { picture } => {
            let pic = block1("get_pictures", Json::Str(picture.clone()));
            block2(t, pic, Json::Null)
        },
        Block::AddEffectAmount { effect, amount } | Block::ChangeEffectAmount {
            effect,
            amount,
        } => {
            let a = param_to_value(amount);
            block3(t, Json::Str(string_of(effect_to_str(*effect))), a, Json::Null)
        },
        Block::StretchScaleSize { dim, value } => {
            let v = param_to_value(value);
            block3(t, Json::Str(string_of(dim_to_str(*dim))), v, Json::Null)
        },
        Block::TextChangeEffect { effect, mode } => {
            let m = if *mode {
                "on"
            } else {
                "off"
            };
            block3(t, Json::Str(string_of(text_effect_to_str(*effect))), Json::Str(string_of(m)), Json::Null)
        },
        Block::TextChangeFont { font } => block2(t, Json::Str(font.clone()), Json::Null),

        _ => Json::Null,
    }
}

/// JSON of an operator, literal or call block.
fn operator_value(b: &Block) -> (r: Json)
    requires
        b is CalcBinOp || b is Compare || b is BoolOp || b is UnaryOp || b is CalcOperation
            || b is CalcRand || b is QuotientAndMod || b is Number || b is Angle || b is Text
            || b is Color || b is Boolean || b is StringConcat || b is FuncCall || b is Return,
    ensures
        r@ == enc_block(b@),
    decreases b, 1nat,
{
    let t = b.type_id();
    match b {
        Block::CalcBinOp { op, lhs, rhs } | Block::Compare { op, lhs, rhs } | Block::BoolOp {
            op,
            lhs,
            rhs,
        } => {
            let l = param_to_value(lhs);
            let r = param_to_value(rhs);
            block3(t, l, Json::Str(string_of(op_str(*op))), r)
        },
        Block::UnaryOp { op, expr } => {
            let e = param_to_value(expr);
            let s = match op {
                UnaryOp::Neg => "-",
                UnaryOp::Not => "!",
            };
            block3(t, e, Json::Str(string_of(s)), Json::Null)
        },
        Block::CalcOperation { op, expr } => {
            let e = param_to_value(expr);
            block2(t, Json::Str(string_of(math_op_to_name(*op))), e)
        },
        Block::CalcRand { min, max } => {
            let lo = param_to_value(min);
            let hi = param_to_value(max);
            block2(t, lo, hi)
        },
        Block::QuotientAndMod { a, b: b2, mode } => {
            let x = param_to_value(a);
            let y = param_to_value(b2);
            block3(t, x, y, Json::Str(string_of(qam_to_str(*mode))))
        },
        Block::Number(n) | Block::Angle(n) => block1(t, Json::Number(n.clone())),
        Block::Text(s) | Block::Color(s) => block1(t, Json::Str(s.clone())),
        Block::Boolean(v) => block1(t, Json::Bool(*v)),
        Block::StringConcat { parts } => {
            proof {
                lemma_param_seq_view(parts);
            }
            json_block(t, params_to_values(parts))
        },
        Block::FuncCall { name, args } => {
            proof {
                lemma_param_seq_view(args);
            }
            let a = params_to_values(args);
            proof {
                crate::json::lemma_array_view(a);
            }
            block3(t, Json::Str(name.clone()), Json::Null, Json::Array(a))
        },
        Block::Return { value } => {
            let v = match value {
                Some(p) => param_to_value(p),
                None => Json::Null,
            };
            block1(t, v)
        },
        _ => Json::Null,
    }
}

/// JSON of a block: `{"type", "params"}`, and `"statements"` for blocks
/// that hold other blocks. Writing a block never fails.
pub fn to_value(block: &Block) -> (r: crate::error::Result<Json>)
    ensures
        r matches Ok(j) && j@ == enc_block(block@),
{
    Ok(block_value(block))
}

impl Block {
    /// Entry type name of this block.
    pub fn type_id(&self) -> (r: &'static str)
        ensures
            r@ == block_type_name(self@),
    {
        match self {
            Block::Basic { kind, .. } => basic_type_name(*kind),
            Block::ReachSomeThing { .. } => special_type_name(SpecialType::ReachSomething),
            Block::CalcBinOp { .. } => special_type_name(SpecialType::CalcBasic),
            Block::Compare { .. } => special_type_name(SpecialType::BooleanBasic),
            Block::BoolOp { .. } => special_type_name(SpecialType::BooleanAndOr),
            Block::UnaryOp { .. } => special_type_name(SpecialType::CalcUnary),
            Block::CalcOperation { .. } => special_type_name(SpecialType::CalcOperation),
            Block::CalcRand { .. } => special_type_name(SpecialType::CalcRand),
            Block::QuotientAndMod { .. } => special_type_name(SpecialType::QuotientAndMod),
            Block::ChooseProjectTimerAction { .. } => special_type_name(
                SpecialType::ChooseProjectTimerAction,
            ),
            Block::SetVisibleProjectTimer { .. } => special_type_name(
                SpecialType::SetVisibleProjectTimer,
            ),
            Block::SetVisibleAnswer { .. } => special_type_name(SpecialType::SetVisibleAnswer),
            Block::Number(_) => special_type_name(SpecialType::Number),
            Block::Text(_) => special_type_name(SpecialType::Text),
            Block::Boolean(_) => special_type_name(SpecialType::Boolean),
            Block::Angle(_) => special_type_name(SpecialType::Angle),
            Block::Color(_) => special_type_name(SpecialType::Color),
            Block::StringConcat { .. } => special_type_name(SpecialType::StringConcat),
            Block::FuncCall { .. } => special_type_name(SpecialType::FunctionCall),
            Block::FuncDef { .. } => special_type_name(SpecialType::FunctionCreate),
            Block::Return { .. } => special_type_name(SpecialType::FunctionReturn),
            Block::If { .. } => special_type_name(SpecialType::If),
            Block::IfElse { .. } => special_type_name(SpecialType::IfElse),
            Block::While { .. } => special_type_name(SpecialType::RepeatWhile),
            Block::Repeat { .. } => special_type_name(SpecialType::RepeatBasic),
            Block::Forever { .. } => special_type_name(SpecialType::RepeatForever),
            Block::Dialog { .. } => special_type_name(SpecialType::Dialog),
            Block::DialogTime { .. } => special_type_name(SpecialType::DialogTime),
            Block::ChangeToSomeShape { .. } => special_type_name(SpecialType::ChangeToSomeShape),
            Block::AddEffectAmount { .. } => special_type_name(SpecialType::AddEffectAmount),
            Block::ChangeEffectAmount { .. } => special_type_name(SpecialType::ChangeEffectAmount),
            Block::StretchScaleSize { .. } => special_type_name(SpecialType::StretchScaleSize),
            Block::TextChangeEffect { .. } => special_type_name(SpecialType::TextChangeEffect),
            Block::TextChangeFont { .. } => special_type_name(SpecialType::TextChangeFont),
        }
    }

    /// Category of this block.
    pub fn category(&self) -> (r: Category)
        ensures
            r == block_category(self@),
    {
        match self {
            Block::Basic { kind, .. } => basic_category_of(*kind),
            Block::ReachSomeThing { .. } => Category::Judgment,
            Block::StringConcat { .. } => Category::String,
            Block::FuncCall { .. } | Block::FuncDef { .. } | Block::Return { .. } => Category::Define,
            Block::If { .. } | Block::IfElse { .. } | Block::While { .. } | Block::Repeat { .. }
            | Block::Forever { .. } => Category::Flow,
            Block::SetVisibleAnswer { .. } => Category::Variable,
            Block::Dialog { .. } | Block::DialogTime { .. } | Block::ChangeToSomeShape { .. }
            | Block::AddEffectAmount { .. } | Block::ChangeEffectAmount { .. }
            | Block::StretchScaleSize { .. } => Category::Looks,
            Block::TextChangeEffect { .. } | Block::TextChangeFont { .. } => Category::Text,
            _ => Category::Calc,
        }
    }
}

} // verus!
