//! Reading back a written block gives the block.
//!
//! The reader and the writer agree on every block whose parameters are
//! where the writer puts them, whose variables the table names back, and
//! which holds none of the few shapes that the reader turns into others
//! (a literal block as a parameter, `while true`, `return null`).

use vstd::prelude::*;

use crate::block::encode::{
    block_json, block_json_with, enc_block, enc_block_params, enc_blocks, enc_param, enc_params, enc_slot,
    enc_slots, slot_at, unary_symbol, var_json, variable_json, list_json,
};
use crate::block::kinds::{layout, tag_name, BasicKind, Slot, SpecialType, TypeTag};
use crate::block::names::{id_text, kind_name, kind_of_name};
use crate::block::{BlockV, DialogMode, Dimension, EffectType, ParamV, SlotV, TextEffect};
use crate::ir::UnaryOp;
use crate::deparse::{
    dec_block, dec_block_list, dec_param, dec_param_list, dec_slot, dec_slots, first_param,
    param_of, tag_named,
};
use crate::error::ErrorKind;
use crate::json::{assoc, jget, JsonV};
use crate::var::{resolved_name, VarMapV};

verus! {

/// The table names variable `n` back: the id written for `n` leads to `n`.
pub open spec fn names_back(vm: VarMapV, n: Seq<char>) -> bool {
    resolved_name(vm, id_text(n)) == n
}

/// Whether a block is a literal block (number, text, truth value, angle).
pub open spec fn is_literal(b: BlockV) -> bool {
    b is Number || b is Text || b is Boolean || b is Angle
}

/// A parameter that reads back as itself.
pub open spec fn rt_param(p: ParamV, vm: VarMapV) -> bool
    decreases p,
{
    match p {
        ParamV::Variable(n) => names_back(vm, n),
        ParamV::Sub(b) => !is_literal(*b) && rt_block(*b, vm),
        _ => true,
    }
}

/// A slot that fits its layout and reads back as itself.
pub open spec fn rt_slot(slot: Slot, v: SlotV, vm: VarMapV) -> bool
    decreases v,
{
    match (slot, v) {
        (Slot::Param, SlotV::Param(p)) => rt_param(p, vm),
        (Slot::Empty, SlotV::Empty) => true,
        (Slot::Var, SlotV::Name(n)) => names_back(vm, n),
        (Slot::List, SlotV::Name(n)) => names_back(vm, n),
        (Slot::Field(_), SlotV::Name(_)) => true,
        (Slot::Required, SlotV::Name(_)) => true,
        _ => false,
    }
}

/// Every parameter of `ps` reads back as itself.
pub open spec fn rt_params(ps: Seq<ParamV>, vm: VarMapV) -> bool
    decreases ps,
{
    forall|i: int| 0 <= i < ps.len() ==> rt_param(#[trigger] ps[i], vm)
}

/// Every block of `bs` reads back as itself.
pub open spec fn rt_blocks(bs: Seq<BlockV>, vm: VarMapV) -> bool
    decreases bs,
{
    forall|i: int| 0 <= i < bs.len() ==> rt_block(#[trigger] bs[i], vm)
}

/// A block that reads back as itself.
pub open spec fn rt_block(b: BlockV, vm: VarMapV) -> bool
    decreases b,
{
    match b {
        BlockV::Basic(k, slots) => slots.len() == layout(k).len() && forall|i: int|
            0 <= i < slots.len() ==> rt_slot(layout(k)[i], #[trigger] slots[i], vm),
        BlockV::CalcBinOp(_, l, r) => rt_param(l, vm) && rt_param(r, vm),
        BlockV::Compare(_, l, r) => rt_param(l, vm) && rt_param(r, vm),
        BlockV::BoolOp(_, l, r) => rt_param(l, vm) && rt_param(r, vm),
        BlockV::UnaryOp(_, e) => rt_param(e, vm),
        BlockV::CalcOperation(..) | BlockV::CalcRand(..) | BlockV::QuotientAndMod(..)
        | BlockV::ChooseProjectTimerAction(_) | BlockV::SetVisibleProjectTimer(_)
        | BlockV::SetVisibleAnswer(_) => false,
        BlockV::StringConcat(parts) => rt_params(parts, vm),
        BlockV::FuncCall(_, args) => rt_params(args, vm),
        BlockV::FuncDef(_, _, body) => rt_blocks(body, vm),
        BlockV::Return(v) => match v {
            Some(p) => p != ParamV::Null && rt_param(p, vm),
            None => true,
        },
        BlockV::If(c, body) => rt_param(c, vm) && rt_blocks(body, vm),
        BlockV::IfElse(c, tb, eb) => rt_param(c, vm) && rt_blocks(tb, vm) && rt_blocks(eb, vm),
        BlockV::While(c, body) => c != ParamV::Boolean(true) && rt_param(c, vm) && rt_blocks(body, vm),
        BlockV::Repeat(c, body) => rt_param(c, vm) && rt_blocks(body, vm),
        BlockV::Forever(body) => rt_blocks(body, vm),
        BlockV::Dialog(_, c) => rt_param(c, vm),
        BlockV::DialogTime(_, c, t) => rt_param(c, vm) && rt_param(t, vm),
        BlockV::AddEffectAmount(_, a) => rt_param(a, vm),
        BlockV::ChangeEffectAmount(_, a) => rt_param(a, vm),
        BlockV::StretchScaleSize(_, a) => rt_param(a, vm),
        _ => true,
    }
}

/// Members of a written block.
proof fn lemma_block_json_members(t: Seq<char>, ps: Seq<JsonV>)
    ensures
        jget(block_json(t, ps), "type"@) == Some(JsonV::Str(t)),
        jget(block_json(t, ps), "params"@) == Some(JsonV::Array(ps)),
        jget(block_json(t, ps), "statements"@) is None,
        jget(block_json(t, ps), "id"@) is None,
        forall|i: int| param_of(block_json(t, ps), i) == crate::json::jat(JsonV::Array(ps), i),
{
    reveal_strlit("type");
    reveal_strlit("params");
    reveal_strlit("statements");
    reveal_strlit("id");
    reveal_with_fuel(assoc, 4);
    let m = seq![("type"@, JsonV::Str(t)), ("params"@, JsonV::Array(ps))];
    assert(m.drop_first() =~= seq![("params"@, JsonV::Array(ps))]);
    assert(m.drop_first().drop_first() =~= Seq::<(Seq<char>, JsonV)>::empty());
    assert("type"@.len() == 4 && "params"@.len() == 6 && "statements"@.len() == 10 && "id"@.len() == 2);
    assert("type"@ != "params"@);
    assert("type"@ != "statements"@ && "params"@ != "statements"@);
    assert("type"@ != "id"@ && "params"@ != "id"@);
}

/// Members of a written block with threads.
proof fn lemma_block_json_with_members(t: Seq<char>, ps: Seq<JsonV>, th: Seq<JsonV>)
    ensures
        jget(block_json_with(t, ps, th), "type"@) == Some(JsonV::Str(t)),
        jget(block_json_with(t, ps, th), "params"@) == Some(JsonV::Array(ps)),
        jget(block_json_with(t, ps, th), "statements"@) == Some(JsonV::Array(th)),
        jget(block_json_with(t, ps, th), "id"@) is None,
        forall|i: int| param_of(block_json_with(t, ps, th), i) == crate::json::jat(JsonV::Array(ps), i),
{
    reveal_strlit("type");
    reveal_strlit("params");
    reveal_strlit("statements");
    reveal_strlit("id");
    reveal_with_fuel(assoc, 5);
    let m = seq![
        ("type"@, JsonV::Str(t)),
        ("params"@, JsonV::Array(ps)),
        ("statements"@, JsonV::Array(th)),
    ];
    assert(m.drop_first() =~= seq![("params"@, JsonV::Array(ps)), ("statements"@, JsonV::Array(th))]);
    assert(m.drop_first().drop_first() =~= seq![("statements"@, JsonV::Array(th))]);
    assert(m.drop_first().drop_first().drop_first() =~= Seq::<(Seq<char>, JsonV)>::empty());
    assert("type"@.len() == 4 && "params"@.len() == 6 && "statements"@.len() == 10 && "id"@.len() == 2);
    assert("type"@ != "params"@);
    assert("type"@ != "statements"@ && "params"@ != "statements"@);
    assert("type"@ != "id"@ && "params"@ != "id"@ && "statements"@ != "id"@);
}


/// The type tag a block is written under.
pub open spec fn block_tag(b: BlockV) -> TypeTag {
    match b {
        BlockV::Basic(k, _) => TypeTag::Basic(k),
        _ => TypeTag::Special(crate::block::encode::special_of(b)),
    }
}

/// Object types that only stand for parameter values are no block type.
proof fn lemma_param_only_types(g: TypeTag)
    ensures
        tag_name(g) != "get_sounds"@ && tag_name(g) != "get_pictures"@ && tag_name(g) != "text_color"@ && tag_name(g) != "function_field_label"@ && tag_name(g) != "function_field_string"@ && tag_name(g) != "get_table_fields"@ && tag_name(g) != "function_field_boolean"@ && tag_name(g) != "text_box_with_self"@ && tag_name(g) != "textBoxWithSelf"@ && tag_name(g) != "wildcard_string"@ && tag_name(g) != "wildcard_boolean"@ && tag_name(g) != "True"@ && tag_name(g) != "False"@,
{
    reveal_strlit("get_sounds");
    reveal_strlit("get_pictures");
    reveal_strlit("text_color");
    reveal_strlit("function_field_label");
    reveal_strlit("function_field_string");
    reveal_strlit("get_table_fields");
    reveal_strlit("function_field_boolean");
    reveal_strlit("text_box_with_self");
    reveal_strlit("textBoxWithSelf");
    reveal_strlit("wildcard_string");
    reveal_strlit("wildcard_boolean");
    reveal_strlit("True");
    reveal_strlit("False");
    crate::block::kinds::lemma_tag_sig(g);
}

/// The parameter types that name blocks are the names of these blocks.
proof fn lemma_block_named(g: TypeTag)
    ensures
        tag_name(g) == "number"@ ==> g == TypeTag::Special(SpecialType::Number),
        tag_name(g) == "text"@ ==> g == TypeTag::Special(SpecialType::Text),
        tag_name(g) == "boolean"@ ==> g == TypeTag::Special(SpecialType::Boolean),
        tag_name(g) == "angle"@ ==> g == TypeTag::Special(SpecialType::Angle),
        tag_name(g) == "boolean_not"@ ==> g == TypeTag::Special(SpecialType::BooleanNot),
        tag_name(g) == "get_sound_volume"@ ==> g == TypeTag::Basic(BasicKind::GetSoundVolume),
        tag_name(g) == "get_sound_duration"@ ==> g == TypeTag::Basic(BasicKind::GetSoundDuration),
{
    crate::block::kinds::lemma_tag_names_distinct(g, TypeTag::Special(SpecialType::Number));
    crate::block::kinds::lemma_tag_names_distinct(g, TypeTag::Special(SpecialType::Text));
    crate::block::kinds::lemma_tag_names_distinct(g, TypeTag::Special(SpecialType::Boolean));
    crate::block::kinds::lemma_tag_names_distinct(g, TypeTag::Special(SpecialType::Angle));
    crate::block::kinds::lemma_tag_names_distinct(g, TypeTag::Special(SpecialType::BooleanNot));
    crate::block::kinds::lemma_tag_names_distinct(g, TypeTag::Basic(BasicKind::GetSoundVolume));
    crate::block::kinds::lemma_tag_names_distinct(g, TypeTag::Basic(BasicKind::GetSoundDuration));
}


/// Members of every written block.
proof fn lemma_json_shapes()
    ensures
        forall|t: Seq<char>, ps: Seq<JsonV>|
            #![trigger block_json(t, ps)]
            block_json(t, ps) is Object && jget(block_json(t, ps), "type"@) == Some(JsonV::Str(t))
                && jget(block_json(t, ps), "params"@) == Some(JsonV::Array(ps))
                && jget(block_json(t, ps), "statements"@) is None
                && jget(block_json(t, ps), "id"@) is None
                && (forall|i: int| #[trigger] param_of(block_json(t, ps), i) == crate::json::jat(JsonV::Array(ps), i)),
        forall|t: Seq<char>, ps: Seq<JsonV>, th: Seq<JsonV>|
            #![trigger block_json_with(t, ps, th)]
            block_json_with(t, ps, th) is Object && jget(block_json_with(t, ps, th), "type"@) == Some(JsonV::Str(t))
                && jget(block_json_with(t, ps, th), "params"@) == Some(JsonV::Array(ps))
                && jget(block_json_with(t, ps, th), "statements"@) == Some(JsonV::Array(th))
                && jget(block_json_with(t, ps, th), "id"@) is None
                && (forall|i: int| #[trigger] param_of(block_json_with(t, ps, th), i) == crate::json::jat(JsonV::Array(ps), i)),
{
    assert forall|t: Seq<char>, ps: Seq<JsonV>|
        #![trigger block_json(t, ps)]
        block_json(t, ps) is Object && jget(block_json(t, ps), "type"@) == Some(JsonV::Str(t))
            && jget(block_json(t, ps), "params"@) == Some(JsonV::Array(ps))
            && jget(block_json(t, ps), "statements"@) is None
            && jget(block_json(t, ps), "id"@) is None
            && (forall|i: int| #[trigger] param_of(block_json(t, ps), i) == crate::json::jat(JsonV::Array(ps), i)) by {
        lemma_block_json_members(t, ps);
    }
    assert forall|t: Seq<char>, ps: Seq<JsonV>, th: Seq<JsonV>|
        #![trigger block_json_with(t, ps, th)]
        block_json_with(t, ps, th) is Object && jget(block_json_with(t, ps, th), "type"@) == Some(JsonV::Str(t))
            && jget(block_json_with(t, ps, th), "params"@) == Some(JsonV::Array(ps))
            && jget(block_json_with(t, ps, th), "statements"@) == Some(JsonV::Array(th))
            && jget(block_json_with(t, ps, th), "id"@) is None
            && (forall|i: int| #[trigger] param_of(block_json_with(t, ps, th), i) == crate::json::jat(JsonV::Array(ps), i)) by {
        lemma_block_json_with_members(t, ps, th);
    }
}

/// A written block is an object holding its type name, which names its tag.
proof fn lemma_written(b: BlockV)
    ensures
        enc_block(b) is Object,
        jget(enc_block(b), "type"@) == Some(JsonV::Str(crate::block::encode::block_type_name(b))),
        jget(enc_block(b), "id"@) is None,
        tag_named(crate::block::encode::block_type_name(b)) == Some(block_tag(b)),
        tag_name(block_tag(b)) == crate::block::encode::block_type_name(b),
{
    lemma_json_shapes();
    crate::deparse::lemma_tag_named_pub(block_tag(b), crate::block::encode::block_type_name(b));
    match b {
        BlockV::Basic(..) => {},
        BlockV::ReachSomeThing(..) => {},
        BlockV::CalcBinOp(..) => {},
        BlockV::Compare(..) => {},
        BlockV::BoolOp(..) => {},
        BlockV::UnaryOp(..) => {},
        BlockV::CalcOperation(..) => {},
        BlockV::CalcRand(..) => {},
        BlockV::QuotientAndMod(..) => {},
        BlockV::ChooseProjectTimerAction(..) => {},
        BlockV::SetVisibleProjectTimer(..) => {},
        BlockV::SetVisibleAnswer(..) => {},
        BlockV::Number(..) => {},
        BlockV::Text(..) => {},
        BlockV::Boolean(..) => {},
        BlockV::Angle(..) => {},
        BlockV::Color(..) => {},
        BlockV::StringConcat(..) => {},
        BlockV::FuncCall(..) => {},
        BlockV::FuncDef(..) => {},
        BlockV::Return(..) => {},
        BlockV::If(..) => {},
        BlockV::IfElse(..) => {},
        BlockV::While(..) => {},
        BlockV::Repeat(..) => {},
        BlockV::Forever(..) => {},
        BlockV::Dialog(..) => {},
        BlockV::DialogTime(..) => {},
        BlockV::ChangeToSomeShape(..) => {},
        BlockV::AddEffectAmount(..) => {},
        BlockV::ChangeEffectAmount(..) => {},
        BlockV::StretchScaleSize(..) => {},
        BlockV::TextChangeEffect(..) => {},
        BlockV::TextChangeFont(..) => {},
    }
}


/// Members of a written variable dropdown.
proof fn lemma_var_json_members(n: Seq<char>, t: Seq<char>)
    ensures
        var_json(n, t) is Object,
        jget(var_json(n, t), "id"@) == Some(JsonV::Str(id_text(n))),
        jget(var_json(n, t), "name"@) == Some(JsonV::Str(n)),
        jget(var_json(n, t), "type"@) is None,
{
    reveal_strlit("type");
    reveal_strlit("id");
    reveal_strlit("name");
    reveal_strlit("variableType");
    reveal_with_fuel(assoc, 4);
    assert("type"@.len() == 4 && "id"@.len() == 2 && "name"@.len() == 4 && "variableType"@.len() == 12);
    assert("type"@[0] == 't' && "name"@[0] == 'n');
    let m = seq![
        ("id"@, JsonV::Str(id_text(n))),
        ("name"@, JsonV::Str(n)),
        ("variableType"@, JsonV::Str(t)),
    ];
    assert(m.drop_first() =~= seq![("name"@, JsonV::Str(n)), ("variableType"@, JsonV::Str(t))]);
    assert(m.drop_first().drop_first() =~= seq![("variableType"@, JsonV::Str(t))]);
    assert(m.drop_first().drop_first().drop_first() =~= Seq::<(Seq<char>, JsonV)>::empty());
}

/// A written literal or variable reads back as itself.
proof fn lemma_rt_plain_param(p: ParamV, vm: VarMapV)
    requires
        rt_param(p, vm),
        !(p is Sub),
    ensures
        dec_param(enc_param(p), vm) == Ok::<ParamV, ErrorKind>(p),
{
    lemma_json_shapes();
    reveal_strlit("number");
    reveal_strlit("text");
    reveal_strlit("boolean");
    reveal_strlit("True");
    reveal_strlit("False");
    reveal_strlit("get_sounds");
    reveal_strlit("get_pictures");
    reveal_strlit("text_color");
    reveal_strlit("function_field_label");
    reveal_strlit("function_field_string");
    reveal_strlit("get_table_fields");
    reveal_strlit("function_field_boolean");
    reveal_strlit("text_box_with_self");
    reveal_strlit("textBoxWithSelf");
    reveal_strlit("angle");
    reveal_strlit("wildcard_string");
    reveal_strlit("wildcard_boolean");
    reveal_strlit("get_sound_volume");
    reveal_strlit("boolean_not");
    reveal_strlit("get_sound_duration");
    match p {
        ParamV::Variable(n) => {
            lemma_var_json_members(n, kind_name(kind_of_name(n)));
        },
        ParamV::Number(n) => {
            assert(first_param(enc_param(p)) == Some(JsonV::Number(n)));
        },
        ParamV::Text(t) => {
            assert(first_param(enc_param(p)) == Some(JsonV::Str(t)));
        },
        ParamV::Boolean(b) => {
            assert(first_param(enc_param(p)) == Some(JsonV::Bool(b)));
        },
        _ => {},
    }
}

/// A written nested block reads back as a parameter holding it.
proof fn lemma_rt_sub_param(b: BlockV, vm: VarMapV)
    requires
        rt_block(b, vm),
        !is_literal(b),
        dec_block(enc_block(b), vm) == Ok::<BlockV, ErrorKind>(b),
    ensures
        dec_param(enc_param(ParamV::Sub(Box::new(b))), vm) == Ok::<ParamV, ErrorKind>(ParamV::Sub(Box::new(b))),
{
    lemma_json_shapes();
    lemma_written(b);
    lemma_param_only_types(block_tag(b));
    lemma_block_named(block_tag(b));
    reveal_strlit("number");
    reveal_strlit("text");
    reveal_strlit("boolean");
    reveal_strlit("True");
    reveal_strlit("False");
    reveal_strlit("get_sounds");
    reveal_strlit("get_pictures");
    reveal_strlit("text_color");
    reveal_strlit("function_field_label");
    reveal_strlit("function_field_string");
    reveal_strlit("get_table_fields");
    reveal_strlit("function_field_boolean");
    reveal_strlit("text_box_with_self");
    reveal_strlit("textBoxWithSelf");
    reveal_strlit("angle");
    reveal_strlit("wildcard_string");
    reveal_strlit("wildcard_boolean");
    reveal_strlit("get_sound_volume");
    reveal_strlit("boolean_not");
    reveal_strlit("get_sound_duration");
    let v = enc_block(b);
    let t = crate::block::encode::block_type_name(b);
    if let BlockV::Basic(k, slots) = b {
        if k == BasicKind::GetSoundVolume {
            assert(slots =~= Seq::<SlotV>::empty());
        } else if k == BasicKind::GetSoundDuration {
            assert(layout(k) == seq![Slot::Empty, Slot::Required, Slot::Empty]);
            assert(rt_slot(layout(k)[0], slots[0], vm));
            assert(rt_slot(layout(k)[1], slots[1], vm));
            assert(rt_slot(layout(k)[2], slots[2], vm));
            assert(slots[0] == SlotV::Empty);
            assert(slots[2] == SlotV::Empty);
            let s = slots[1]->Name_0;
            assert(enc_block_params_of_slots(k, slots)[1] == JsonV::Str(s));
            assert(slots =~= seq![SlotV::Empty, SlotV::Name(s), SlotV::Empty]);
        }
    }
}

/// The written slots of a fixed-shape block.
pub open spec fn enc_block_params_of_slots(k: BasicKind, slots: Seq<SlotV>) -> Seq<JsonV> {
    enc_slots(k, slots)
}


/// Reading back a written parameter gives the parameter.
pub proof fn lemma_rt_param(p: ParamV, vm: VarMapV)
    requires
        rt_param(p, vm),
    ensures
        dec_param(enc_param(p), vm) == Ok::<ParamV, ErrorKind>(p),
    decreases p, 2int, 0int,
{
    match p {
        ParamV::Sub(b) => {
            lemma_rt_block(*b, vm);
            lemma_rt_sub_param(*b, vm);
        },
        _ => lemma_rt_plain_param(p, vm),
    }
}

/// Reading back the first `n` written parameters of `ps` gives them.
pub proof fn lemma_rt_params(ps: Seq<ParamV>, n: nat, vm: VarMapV)
    requires
        rt_params(ps, vm),
        n <= ps.len(),
    ensures
        dec_param_list(enc_params(ps), n, vm) == Ok::<Seq<ParamV>, ErrorKind>(ps.take(n as int)),
    decreases ps, 1int, n,
{
    if n == 0 {
        assert(ps.take(0) =~= Seq::<ParamV>::empty());
    } else {
        lemma_rt_params(ps, (n - 1) as nat, vm);
        assert(rt_param(ps[n - 1], vm));
        lemma_rt_param(ps[n - 1], vm);
        assert(ps.take(n as int) =~= ps.take(n - 1).push(ps[n - 1]));
    }
}

/// Reading back the first `n` written blocks of `bs` gives them.
pub proof fn lemma_rt_blocks(bs: Seq<BlockV>, n: nat, vm: VarMapV)
    requires
        rt_blocks(bs, vm),
        n <= bs.len(),
    ensures
        dec_block_list(enc_blocks(bs), n, vm) == Ok::<Seq<BlockV>, ErrorKind>(bs.take(n as int)),
    decreases bs, 1int, n,
{
    if n == 0 {
        assert(bs.take(0) =~= Seq::<BlockV>::empty());
    } else {
        lemma_rt_blocks(bs, (n - 1) as nat, vm);
        assert(rt_block(bs[n - 1], vm));
        lemma_rt_block(bs[n - 1], vm);
        assert(bs.take(n as int) =~= bs.take(n - 1).push(bs[n - 1]));
    }
}

/// Reading back the first `n` written slots of a fixed-shape block gives them.
pub proof fn lemma_rt_slots(k: BasicKind, slots: Seq<SlotV>, n: nat, vm: VarMapV)
    requires
        rt_block(BlockV::Basic(k, slots), vm),
        n <= slots.len(),
    ensures
        dec_slots(enc_block(BlockV::Basic(k, slots)), k, n, vm) == Ok::<Seq<SlotV>, ErrorKind>(slots.take(n as int)),
    decreases slots, 1int, n,
{
    lemma_json_shapes();
    if n == 0 {
        assert(slots.take(0) =~= Seq::<SlotV>::empty());
    } else {
        lemma_rt_slots(k, slots, (n - 1) as nat, vm);
        let i = n - 1;
        let v = enc_block(BlockV::Basic(k, slots));
        assert(rt_slot(layout(k)[i], slots[i], vm));
        assert(param_of(v, i) == Some(enc_slot(slot_at(k, i), slots[i])));
        assert(slot_at(k, i) == layout(k)[i]);
        match slots[i] {
            SlotV::Param(p) => {
                lemma_rt_param(p, vm);
                assert(crate::deparse::dec_param_at(v, i, vm) == Ok::<ParamV, ErrorKind>(p));
            },
            SlotV::Name(nm) => {
                lemma_var_json_members(nm, kind_name(kind_of_name(nm)));
                lemma_var_json_members(nm, "list"@);
            },
            SlotV::Empty => {},
        }
        assert(dec_slot(v, i, layout(k)[i], vm) == Ok::<SlotV, ErrorKind>(slots[i]));
        assert(slots.take(n as int) =~= slots.take(i).push(slots[i]));
    }
}

/// Strings written as JSON strings are read back as they were.
proof fn lemma_strings_back(ps: Seq<Seq<char>>)
    ensures
        crate::deparse::strings_of(ps.map_values(|p: Seq<char>| JsonV::Str(p))) == ps,
    decreases ps.len(),
{
    if ps.len() > 0 {
        lemma_strings_back(ps.drop_last());
        assert(ps.map_values(|p: Seq<char>| JsonV::Str(p)).drop_last() =~= ps.drop_last().map_values(
            |p: Seq<char>| JsonV::Str(p),
        ));
        assert(ps.drop_last().push(ps.last()) =~= ps);
    } else {
        assert(ps.map_values(|p: Seq<char>| JsonV::Str(p)) =~= Seq::<JsonV>::empty());
    }
}

/// Reading back the written `x` gives `x`.
pub open spec fn reads_back(x: ParamV, vm: VarMapV) -> bool {
    dec_param(enc_param(x), vm) == Ok::<ParamV, ErrorKind>(x)
}

/// Reading back the written `ps` gives `ps`.
pub open spec fn params_read_back(ps: Seq<ParamV>, vm: VarMapV) -> bool {
    dec_param_list(enc_params(ps), ps.len(), vm) == Ok::<Seq<ParamV>, ErrorKind>(ps)
}

/// Reading back the written `bs` gives `bs`.
pub open spec fn blocks_read_back(bs: Seq<BlockV>, vm: VarMapV) -> bool {
    dec_block_list(enc_blocks(bs), bs.len(), vm) == Ok::<Seq<BlockV>, ErrorKind>(bs)
}

/// Every part that a block holds reads back as itself.
pub open spec fn parts_read_back(b: BlockV, vm: VarMapV) -> bool {
    match b {
        BlockV::CalcBinOp(_, l, r) | BlockV::Compare(_, l, r) | BlockV::BoolOp(_, l, r) => reads_back(l, vm)
            && reads_back(r, vm),
        BlockV::UnaryOp(_, e) => reads_back(e, vm),
        BlockV::StringConcat(ps) | BlockV::FuncCall(_, ps) => params_read_back(ps, vm),
        BlockV::Return(Some(x)) => reads_back(x, vm),
        BlockV::Dialog(_, c) => reads_back(c, vm),
        BlockV::DialogTime(_, c, t) => reads_back(c, vm) && reads_back(t, vm),
        BlockV::AddEffectAmount(_, a) | BlockV::ChangeEffectAmount(_, a) | BlockV::StretchScaleSize(_, a) => reads_back(a, vm),
        BlockV::FuncDef(_, _, body) | BlockV::Forever(body) => blocks_read_back(body, vm),
        BlockV::If(c, body) | BlockV::While(c, body) | BlockV::Repeat(c, body) => reads_back(c, vm)
            && blocks_read_back(body, vm),
        BlockV::IfElse(c, tb, eb) => reads_back(c, vm) && blocks_read_back(tb, vm) && blocks_read_back(eb, vm),
        _ => true,
    }
}

/// What reading a parameter slot of a written block gives.
proof fn lemma_param_slot(b: BlockV, i: int, x: ParamV, vm: VarMapV)
    requires
        0 <= i < enc_block_params(b).len(),
        enc_block_params(b)[i] == enc_param(x),
        reads_back(x, vm),
    ensures
        crate::deparse::dec_param_at(enc_block(b), i, vm) == Ok::<ParamV, ErrorKind>(x),
{
    lemma_json_shapes();
}

/// A parameter other than `Null` is not written as `null`.
proof fn lemma_nonnull(x: ParamV)
    requires
        x != ParamV::Null,
    ensures
        !(enc_param(x) is Null),
{
    lemma_json_shapes();
    if let ParamV::Sub(b) = x {
        lemma_written(*b);
    } else if let ParamV::Variable(n) = x {
        lemma_var_json_members(n, kind_name(kind_of_name(n)));
    }
}

/// Literal, call and dropdown blocks read back.
proof fn lemma_case_plain(b: BlockV, vm: VarMapV)
    requires
        rt_block(b, vm),
        b is ReachSomeThing || b is Number || b is Angle || b is Text || b is Color || b is Boolean
            || b is StringConcat || b is FuncCall || b is Return,
        parts_read_back(b, vm),
    ensures
        dec_block(enc_block(b), vm) == Ok::<BlockV, ErrorKind>(b),
{
    lemma_json_shapes();
    lemma_written(b);
    match b {
        BlockV::Return(Some(x)) => {
            lemma_nonnull(x);
            lemma_param_slot(b, 0, x, vm);
        },
        _ => {},
    }
}

proof fn lemma_case_calc_bin_op(op: crate::ir::BinOp, l: ParamV, r: ParamV, vm: VarMapV)
    requires
        reads_back(l,
        vm),
        reads_back(r,
        vm),
    ensures
        dec_block(enc_block(BlockV::CalcBinOp(op, l, r)), vm) == Ok::<BlockV, ErrorKind>(BlockV::CalcBinOp(op, l, r)),
{
    let b = BlockV::CalcBinOp(op, l, r);
    lemma_json_shapes();
    lemma_written(b);
    crate::block::names::lemma_op_symbol_roundtrip(op);
    lemma_param_slot(b, 0, l, vm);
    lemma_param_slot(b, 2, r, vm);
}

proof fn lemma_case_compare(op: crate::ir::BinOp, l: ParamV, r: ParamV, vm: VarMapV)
    requires
        reads_back(l,
        vm),
        reads_back(r,
        vm),
    ensures
        dec_block(enc_block(BlockV::Compare(op, l, r)), vm) == Ok::<BlockV, ErrorKind>(BlockV::Compare(op, l, r)),
{
    let b = BlockV::Compare(op, l, r);
    lemma_json_shapes();
    lemma_written(b);
    crate::block::names::lemma_op_symbol_roundtrip(op);
    lemma_param_slot(b, 0, l, vm);
    lemma_param_slot(b, 2, r, vm);
}

proof fn lemma_case_bool_op(op: crate::ir::BinOp, l: ParamV, r: ParamV, vm: VarMapV)
    requires
        reads_back(l,
        vm),
        reads_back(r,
        vm),
    ensures
        dec_block(enc_block(BlockV::BoolOp(op, l, r)), vm) == Ok::<BlockV, ErrorKind>(BlockV::BoolOp(op, l, r)),
{
    let b = BlockV::BoolOp(op, l, r);
    lemma_json_shapes();
    lemma_written(b);
    crate::block::names::lemma_op_symbol_roundtrip(op);
    lemma_param_slot(b, 0, l, vm);
    lemma_param_slot(b, 2, r, vm);
}

proof fn lemma_case_unary(op: UnaryOp, e: ParamV, vm: VarMapV)
    requires
        reads_back(e,
        vm),
    ensures
        dec_block(enc_block(BlockV::UnaryOp(op, e)), vm) == Ok::<BlockV, ErrorKind>(BlockV::UnaryOp(op, e)),
{
    let b = BlockV::UnaryOp(op, e);
    lemma_json_shapes();
    lemma_written(b);
    reveal_strlit("-");
    reveal_strlit("!");
    assert("-"@.len() == 1 && "!"@.len() == 1 && "-"@[0] == '-' && "!"@[0] == '!');
    assert("-"@ != "!"@);
    lemma_param_slot(b, 0, e, vm);
}

proof fn lemma_case_dialog(m: DialogMode, c: ParamV, vm: VarMapV)
    requires
        reads_back(c,
        vm),
    ensures
        dec_block(enc_block(BlockV::Dialog(m, c)), vm) == Ok::<BlockV, ErrorKind>(BlockV::Dialog(m, c)),
{
    let b = BlockV::Dialog(m, c);
    lemma_json_shapes();
    lemma_written(b);
    reveal_strlit("say");
    reveal_strlit("think");
    assert("say"@.len() == 3 && "think"@.len() == 5);
    lemma_param_slot(b, 0, c, vm);
}

#[verifier::spinoff_prover]
#[verifier::rlimit(40)]
proof fn lemma_case_dialog_time(m: DialogMode, c: ParamV, t: ParamV, vm: VarMapV)
    requires
        reads_back(c,
        vm),
        reads_back(t,
        vm),
    ensures
        dec_block(enc_block(BlockV::DialogTime(m, c, t)), vm) == Ok::<BlockV, ErrorKind>(BlockV::DialogTime(m, c, t)),
{
    let b = BlockV::DialogTime(m, c, t);
    lemma_json_shapes();
    lemma_written(b);
    reveal_strlit("say");
    reveal_strlit("think");
    assert("say"@.len() == 3 && "think"@.len() == 5);
    lemma_param_slot(b, 0, c, vm);
    lemma_param_slot(b, 2, t, vm);
}

proof fn lemma_case_shape(p: Seq<char>, vm: VarMapV)
    requires
        true,
    ensures
        dec_block(enc_block(BlockV::ChangeToSomeShape(p)), vm) == Ok::<BlockV, ErrorKind>(BlockV::ChangeToSomeShape(p)),
{
    let b = BlockV::ChangeToSomeShape(p);
    lemma_json_shapes();
    lemma_written(b);
    reveal_strlit("get_pictures");
}

proof fn lemma_case_add_effect(e: EffectType, a: ParamV, vm: VarMapV)
    requires
        reads_back(a,
        vm),
    ensures
        dec_block(enc_block(BlockV::AddEffectAmount(e, a)), vm) == Ok::<BlockV, ErrorKind>(BlockV::AddEffectAmount(e, a)),
{
    let b = BlockV::AddEffectAmount(e, a);
    lemma_json_shapes();
    lemma_written(b);
    crate::block::names::lemma_effect_name_roundtrip(e);
    lemma_param_slot(b, 1, a, vm);
}

proof fn lemma_case_change_effect(e: EffectType, a: ParamV, vm: VarMapV)
    requires
        reads_back(a,
        vm),
    ensures
        dec_block(enc_block(BlockV::ChangeEffectAmount(e, a)), vm) == Ok::<BlockV, ErrorKind>(BlockV::ChangeEffectAmount(e, a)),
{
    let b = BlockV::ChangeEffectAmount(e, a);
    lemma_json_shapes();
    lemma_written(b);
    crate::block::names::lemma_effect_name_roundtrip(e);
    lemma_param_slot(b, 1, a, vm);
}

proof fn lemma_case_stretch(d: Dimension, a: ParamV, vm: VarMapV)
    requires
        reads_back(a,
        vm),
    ensures
        dec_block(enc_block(BlockV::StretchScaleSize(d, a)), vm) == Ok::<BlockV, ErrorKind>(BlockV::StretchScaleSize(d, a)),
{
    let b = BlockV::StretchScaleSize(d, a);
    lemma_json_shapes();
    lemma_written(b);
    reveal_strlit("WIDTH");
    reveal_strlit("HEIGHT");
    lemma_param_slot(b, 1, a, vm);
}

#[verifier::spinoff_prover]
#[verifier::rlimit(40)]
proof fn lemma_case_text_effect(e: TextEffect, on: bool, vm: VarMapV)
    requires
        true,
    ensures
        dec_block(enc_block(BlockV::TextChangeEffect(e, on)), vm) == Ok::<BlockV, ErrorKind>(BlockV::TextChangeEffect(e, on)),
{
    let b = BlockV::TextChangeEffect(e, on);
    lemma_json_shapes();
    lemma_written(b);
    reveal_strlit("on");
    reveal_strlit("off");
    assert("on"@.len() == 2 && "off"@.len() == 3);
    crate::block::names::lemma_text_effect_name_roundtrip(e);
    let v = enc_block(b);
    let en = crate::block::names::text_effect_name(e);
    let m: Seq<char> = if on {
        "on"@
    } else {
        "off"@
    };
    assert(param_of(v, 0) == Some(JsonV::Str(en)));
    assert(param_of(v, 1) == Some(JsonV::Str(m)));
    assert(crate::deparse::dec_param_at(v, 0, vm) == Ok::<ParamV, ErrorKind>(ParamV::Text(en)));
    assert(crate::deparse::dec_param_at(v, 1, vm) == Ok::<ParamV, ErrorKind>(ParamV::Text(m)));
}

proof fn lemma_case_font(f: Seq<char>, vm: VarMapV)
    requires
        true,
    ensures
        dec_block(enc_block(BlockV::TextChangeFont(f)), vm) == Ok::<BlockV, ErrorKind>(BlockV::TextChangeFont(f)),
{
    let b = BlockV::TextChangeFont(f);
    lemma_json_shapes();
    lemma_written(b);
    let v = enc_block(b);
    assert(param_of(v, 0) == Some(JsonV::Str(f)));
    assert(crate::deparse::dec_param_at(v, 0, vm) == Ok::<ParamV, ErrorKind>(ParamV::Text(f)));
}

proof fn lemma_case_func_def(name: Seq<char>, params: Seq<Seq<char>>, body: Seq<BlockV>, vm: VarMapV)
    requires
        blocks_read_back(body,
        vm),
    ensures
        dec_block(enc_block(BlockV::FuncDef(name, params, body)), vm) == Ok::<BlockV, ErrorKind>(BlockV::FuncDef(name, params, body)),
{
    let b = BlockV::FuncDef(name, params, body);
    lemma_json_shapes();
    lemma_written(b);
    lemma_strings_back(params);
}

proof fn lemma_case_if(c: ParamV, body: Seq<BlockV>, vm: VarMapV)
    requires
        reads_back(c,
        vm),
        blocks_read_back(body,
        vm),
    ensures
        dec_block(enc_block(BlockV::If(c, body)), vm) == Ok::<BlockV, ErrorKind>(BlockV::If(c, body)),
{
    let b = BlockV::If(c, body);
    lemma_json_shapes();
    lemma_written(b);
    lemma_param_slot(b, 0, c, vm);
}

proof fn lemma_case_while(c: ParamV, body: Seq<BlockV>, vm: VarMapV)
    requires
        c != ParamV::Boolean(true),
        reads_back(c,
        vm),
        blocks_read_back(body,
        vm),
    ensures
        dec_block(enc_block(BlockV::While(c, body)), vm) == Ok::<BlockV, ErrorKind>(BlockV::While(c, body)),
{
    let b = BlockV::While(c, body);
    lemma_json_shapes();
    lemma_written(b);
    lemma_param_slot(b, 0, c, vm);
}

proof fn lemma_case_repeat(c: ParamV, body: Seq<BlockV>, vm: VarMapV)
    requires
        reads_back(c,
        vm),
        blocks_read_back(body,
        vm),
    ensures
        dec_block(enc_block(BlockV::Repeat(c, body)), vm) == Ok::<BlockV, ErrorKind>(BlockV::Repeat(c, body)),
{
    let b = BlockV::Repeat(c, body);
    lemma_json_shapes();
    lemma_written(b);
    lemma_param_slot(b, 0, c, vm);
}

proof fn lemma_case_if_else(c: ParamV, tb: Seq<BlockV>, eb: Seq<BlockV>, vm: VarMapV)
    requires
        reads_back(c,
        vm),
        blocks_read_back(tb,
        vm),
        blocks_read_back(eb,
        vm),
    ensures
        dec_block(enc_block(BlockV::IfElse(c, tb, eb)), vm) == Ok::<BlockV, ErrorKind>(BlockV::IfElse(c, tb, eb)),
{
    let b = BlockV::IfElse(c, tb, eb);
    lemma_json_shapes();
    lemma_written(b);
    lemma_param_slot(b, 0, c, vm);
}

proof fn lemma_case_forever(body: Seq<BlockV>, vm: VarMapV)
    requires
        blocks_read_back(body,
        vm),
    ensures
        dec_block(enc_block(BlockV::Forever(body)), vm) == Ok::<BlockV, ErrorKind>(BlockV::Forever(body)),
{
    let b = BlockV::Forever(body);
    lemma_json_shapes();
    lemma_written(b);
    
}

/// Reading back a written block gives the block, for every block that
/// `rt_block` admits.
pub proof fn lemma_rt_block(b: BlockV, vm: VarMapV)
    requires
        rt_block(b, vm),
    ensures
        dec_block(enc_block(b), vm) == Ok::<BlockV, ErrorKind>(b),
    decreases b, 3int, 0int,
{
    match b {
        BlockV::Basic(k, slots) => {
            lemma_written(b);
            lemma_rt_slots(k, slots, slots.len(), vm);
            assert(slots.take(slots.len() as int) =~= slots);
        },
        BlockV::CalcBinOp(op, l, r) => {
            lemma_rt_param(l, vm);
            lemma_rt_param(r, vm);
            lemma_case_calc_bin_op(op, l, r, vm);
        },
        BlockV::Compare(op, l, r) => {
            lemma_rt_param(l, vm);
            lemma_rt_param(r, vm);
            lemma_case_compare(op, l, r, vm);
        },
        BlockV::BoolOp(op, l, r) => {
            lemma_rt_param(l, vm);
            lemma_rt_param(r, vm);
            lemma_case_bool_op(op, l, r, vm);
        },
        BlockV::UnaryOp(op, e) => {
            lemma_rt_param(e, vm);
            lemma_case_unary(op, e, vm);
        },
        BlockV::StringConcat(ps) | BlockV::FuncCall(_, ps) => {
            lemma_rt_params(ps, ps.len(), vm);
            assert(ps.take(ps.len() as int) =~= ps);
            lemma_case_plain(b, vm);
        },
        BlockV::Return(r) => {
            if let Some(x) = r {
                lemma_rt_param(x, vm);
            }
            lemma_case_plain(b, vm);
        },
        BlockV::ReachSomeThing(_) | BlockV::Number(_) | BlockV::Angle(_) | BlockV::Text(_)
        | BlockV::Color(_) | BlockV::Boolean(_) => {
            lemma_case_plain(b, vm);
        },
        BlockV::Dialog(m, c) => {
            lemma_rt_param(c, vm);
            lemma_case_dialog(m, c, vm);
        },
        BlockV::DialogTime(m, c, t) => {
            lemma_rt_param(c, vm);
            lemma_rt_param(t, vm);
            lemma_case_dialog_time(m, c, t, vm);
        },
        BlockV::AddEffectAmount(e, a) => {
            lemma_rt_param(a, vm);
            lemma_case_add_effect(e, a, vm);
        },
        BlockV::ChangeEffectAmount(e, a) => {
            lemma_rt_param(a, vm);
            lemma_case_change_effect(e, a, vm);
        },
        BlockV::StretchScaleSize(d, a) => {
            lemma_rt_param(a, vm);
            lemma_case_stretch(d, a, vm);
        },
        BlockV::ChangeToSomeShape(p) => lemma_case_shape(p, vm),
        BlockV::TextChangeEffect(e, on) => lemma_case_text_effect(e, on, vm),
        BlockV::TextChangeFont(f) => lemma_case_font(f, vm),
        BlockV::FuncDef(name, params, body) => {
            lemma_rt_blocks(body, body.len(), vm);
            assert(body.take(body.len() as int) =~= body);
            lemma_case_func_def(name, params, body, vm);
        },
        BlockV::Forever(body) => {
            lemma_rt_blocks(body, body.len(), vm);
            assert(body.take(body.len() as int) =~= body);
            lemma_case_forever(body, vm);
        },
        BlockV::If(c, body) => {
            lemma_rt_param(c, vm);
            lemma_rt_blocks(body, body.len(), vm);
            assert(body.take(body.len() as int) =~= body);
            lemma_case_if(c, body, vm);
        },
        BlockV::While(c, body) => {
            lemma_rt_param(c, vm);
            lemma_rt_blocks(body, body.len(), vm);
            assert(body.take(body.len() as int) =~= body);
            lemma_case_while(c, body, vm);
        },
        BlockV::Repeat(c, body) => {
            lemma_rt_param(c, vm);
            lemma_rt_blocks(body, body.len(), vm);
            assert(body.take(body.len() as int) =~= body);
            lemma_case_repeat(c, body, vm);
        },
        BlockV::IfElse(c, tb, eb) => {
            lemma_rt_param(c, vm);
            lemma_rt_blocks(tb, tb.len(), vm);
            lemma_rt_blocks(eb, eb.len(), vm);
            assert(tb.take(tb.len() as int) =~= tb);
            assert(eb.take(eb.len() as int) =~= eb);
            lemma_case_if_else(c, tb, eb, vm);
        },
        _ => {},
    }
}

/// A block written as JSON and read back is the same block, for every
/// block whose parts read back as themselves (see `rt_block`): what the
/// encoder writes, the decoder reads.
pub proof fn law_write_then_read(b: BlockV, vm: VarMapV)
    requires
        rt_block(b, vm),
    ensures
        dec_block(enc_block(b), vm) == Ok::<BlockV, ErrorKind>(b),
{
    lemma_rt_block(b, vm);
}

/// Every written block is an object with its type name under `type`, its
/// parameters as an array under `params`, and, for a block that holds
/// other blocks, its threads (each an array of blocks) under `statements`.
pub proof fn law_written_block_shape(b: BlockV)
    ensures
        enc_block(b) is Object,
        jget(enc_block(b), "type"@) == Some(JsonV::Str(crate::block::encode::block_type_name(b))),
        jget(enc_block(b), "params"@) == Some(JsonV::Array(enc_block_params(b))),
        match crate::block::encode::enc_block_threads(b) {
            Some(th) => jget(enc_block(b), "statements"@) == Some(JsonV::Array(th)) && forall|i: int|
                0 <= i < th.len() ==> (#[trigger] th[i]) is Array,
            None => jget(enc_block(b), "statements"@) is None,
        },
{
    let t = crate::block::encode::block_type_name(b);
    let ps = enc_block_params(b);
    match crate::block::encode::enc_block_threads(b) {
        Some(th) => {
            lemma_block_json_with_members(t, ps, th);
        },
        None => {
            lemma_block_json_members(t, ps);
        },
    }
}

} // verus!
