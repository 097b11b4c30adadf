//! Reading Entry JSON back into blocks, and blocks into statements.

use vstd::prelude::*;

use crate::block::kinds::{
    alias_kind, default_text, find_tag, layout, BasicKind, FieldDefault, Slot, SpecialType,
    TypeTag,
};
use crate::block::names::{
    effect_named, math_op_named, op_named, text_effect_named,
};
use crate::block::{
    Block, BlockV, DialogMode, Dimension, EffectType, MathOperation, ParamBlock, ParamV,
    QamMethod, SlotV, SlotValue,
};
use crate::error::{Error, ErrorKind};
use crate::ir::UnaryOp;
use crate::json::{assoc, jarr, jat, jbool, jget, jstr, Json, JsonV};
use crate::text::{is_float_text, lower_ascii};
use crate::var::{resolved_name, VarMap, VarMapV};

pub use crate::unmapped::collect_unmapped_blocks;

verus! {

/// The text of an optional JSON string, or `d`.
pub open spec fn str_or(j: Option<JsonV>, d: Seq<char>) -> Seq<char> {
    match jstr(j) {
        Some(s) => s,
        None => d,
    }
}

/// The text of an optional JSON number.
pub open spec fn num_of(j: Option<JsonV>) -> Option<Seq<char>> {
    match j {
        Some(JsonV::Number(n)) => Some(n),
        _ => None,
    }
}

/// First element of the `params` array of `v`.
pub open spec fn first_param(v: JsonV) -> Option<JsonV> {
    match jget(v, "params"@) {
        Some(JsonV::Array(a)) => if a.len() > 0 {
            Some(a[0])
        } else {
            None
        },
        _ => None,
    }
}

/// Element `i` of the `params` array of `v`.
pub open spec fn param_of(v: JsonV, i: int) -> Option<JsonV> {
    match jget(v, "params"@) {
        Some(p) => jat(p, i),
        None => None,
    }
}

/// A member found by name is one of the members.
proof fn lemma_assoc_member(m: Seq<(Seq<char>, JsonV)>, key: Seq<char>) -> (i: int)
    requires
        assoc(m, key) is Some,
    ensures
        0 <= i < m.len(),
        assoc(m, key) == Some(m[i].1),
    decreases m.len(),
{
    if m[0].0 == key {
        0
    } else {
        let j = lemma_assoc_member(m.drop_first(), key);
        j + 1
    }
}

/// A member of an object is smaller than the object.
pub proof fn lemma_assoc_smaller(m: Seq<(Seq<char>, JsonV)>, key: Seq<char>)
    ensures
        assoc(m, key) matches Some(x) ==> decreases_to!(JsonV::Object(m) => x),
{
    if assoc(m, key) is Some {
        let i = lemma_assoc_member(m, key);
        let o = JsonV::Object(m);
        assert(decreases_to!(o => o->Object_0));
        assert(decreases_to!(m => m[i]));
        assert(decreases_to!(m[i] => m[i].1));
        assert(decreases_to!(o => m[i].1));
    }
}

/// A parameter of a block is smaller than the block.
pub proof fn lemma_param_smaller(v: JsonV, i: int)
    ensures
        param_of(v, i) matches Some(x) ==> decreases_to!(v => x),
        first_param(v) matches Some(x) ==> decreases_to!(v => x),
{
    if let JsonV::Object(m) = v {
        lemma_assoc_smaller(m, "params"@);
        if let Some(JsonV::Array(a)) = jget(v, "params"@) {
            let arr = JsonV::Array(a);
            assert(decreases_to!(arr => arr->Array_0));
            if 0 <= i < a.len() {
                assert(decreases_to!(a => a[i]));
            }
            if a.len() > 0 {
                assert(decreases_to!(a => a[0]));
            }
        }
    }
}

/// A thread under `statements` is smaller than its block.
pub proof fn lemma_thread_smaller(v: JsonV, idx: int)
    ensures
        thread_of(v, idx) matches Some(b) ==> decreases_to!(v => b),
{
    if let JsonV::Object(m) = v {
        lemma_assoc_smaller(m, "statements"@);
        if let Some(JsonV::Array(a)) = jget(v, "statements"@) {
            let arr = JsonV::Array(a);
            assert(decreases_to!(arr => arr->Array_0));
            if 0 <= idx < a.len() {
                assert(decreases_to!(a => a[idx]));
                if let JsonV::Array(b) = a[idx] {
                    let inner = a[idx];
                    assert(decreases_to!(inner => inner->Array_0));
                }
            }
        }
    }
}

/// The blocks of thread `idx` under `statements`, when it is an array.
pub open spec fn thread_of(v: JsonV, idx: int) -> Option<Seq<JsonV>> {
    match jget(v, "statements"@) {
        Some(JsonV::Array(a)) => if 0 <= idx < a.len() {
            match a[idx] {
                JsonV::Array(b) => Some(b),
                _ => None,
            }
        } else {
            None
        },
        _ => None,
    }
}

/// Parameter values that a typed object stands for without reading a
/// nested block: literals and dropdown placeholders.
pub open spec fn simple_typed(v: JsonV, t: Seq<char>) -> Option<ParamV> {
    let first = first_param(v);
    if (t == "number"@ || t == "angle"@) && num_of(first) is Some {
        Some(ParamV::Number(num_of(first).unwrap()))
    } else if (t == "text"@ || t == "get_sounds"@ || t == "get_pictures"@ || t == "text_color"@)
        && jstr(first) is Some {
        Some(ParamV::Text(jstr(first).unwrap()))
    } else if t == "boolean"@ || t == "True"@ || t == "False"@ {
        match first {
            Some(JsonV::Bool(b)) => Some(ParamV::Boolean(b)),
            _ => Some(ParamV::Boolean(t == "True"@)),
        }
    } else if t == "function_field_label"@ || t == "function_field_string"@ || t == "get_table_fields"@ {
        Some(ParamV::Text(str_or(first, ""@)))
    } else if t == "function_field_boolean"@ {
        Some(
            ParamV::Boolean(
                match jbool(first) {
                    Some(b) => b,
                    None => false,
                },
            ),
        )
    } else if t == "text_box_with_self"@ || t == "textBoxWithSelf"@ {
        Some(ParamV::Text(str_or(first, "self"@)))
    } else if t == "wildcard_string"@ || t == "wildcard_boolean"@ {
        Some(ParamV::Null)
    } else if t == "get_sound_volume"@ {
        Some(ParamV::Sub(Box::new(BlockV::Basic(BasicKind::GetSoundVolume, seq![]))))
    } else {
        None
    }
}

/// A parameter value read from JSON. Variables are named through `vm`.
pub open spec fn dec_param(v: JsonV, vm: VarMapV) -> Result<ParamV, ErrorKind>
    decreases v, 4int, 0int,
{
    match v {
        JsonV::Null => Ok(ParamV::Null),
        JsonV::Number(n) => Ok(ParamV::Number(n)),
        JsonV::Str(s) => Ok(ParamV::Text(s)),
        JsonV::Bool(b) => Ok(ParamV::Boolean(b)),
        JsonV::Array(_) => Err(ErrorKind::Parse),
        JsonV::Object(m) => {
            if assoc(m, "type"@) is None && assoc(m, "id"@) is Some && assoc(m, "name"@) is Some {
                Ok(ParamV::Variable(resolved_name(vm, str_or(assoc(m, "id"@), ""@))))
            } else {
                match jstr(assoc(m, "type"@)) {
                    Some(t) => dec_typed(v, t, vm),
                    None => match dec_block(v, vm) {
                        Ok(b) => Ok(ParamV::Sub(Box::new(b))),
                        Err(k) => Err(k),
                    },
                }
            }
        },
    }
}

/// A parameter value read from an object of type `t`.
pub open spec fn dec_typed(v: JsonV, t: Seq<char>, vm: VarMapV) -> Result<ParamV, ErrorKind>
    decreases v, 3int, 0int,
{
    match simple_typed(v, t) {
        Some(p) => Ok(p),
        None => if t == "boolean_not"@ {
            match first_param(v) {
                Some(p) => {
                    proof {
                        lemma_param_smaller(v, 0);
                    }
                    match dec_param(p, vm) {
                        Ok(e) => Ok(ParamV::Sub(Box::new(BlockV::UnaryOp(UnaryOp::Not, e)))),
                        Err(k) => Err(k),
                    }
                },
                None => Ok(ParamV::Sub(Box::new(BlockV::UnaryOp(UnaryOp::Not, ParamV::Null)))),
            }
        } else if t == "get_sound_duration"@ {
            match jstr(param_of(v, 1)) {
                Some(s) => Ok(
                    ParamV::Sub(
                        Box::new(
                            BlockV::Basic(
                                BasicKind::GetSoundDuration,
                                seq![SlotV::Empty, SlotV::Name(s), SlotV::Empty],
                            ),
                        ),
                    ),
                ),
                None => Err(ErrorKind::Parse),
            }
        } else {
            match dec_block(v, vm) {
                Ok(b) => Ok(ParamV::Sub(Box::new(b))),
                Err(k) => Err(k),
            }
        },
    }
}

/// Parameter `i` of block `v`; a missing one is `Null`.
pub open spec fn dec_param_at(v: JsonV, i: int, vm: VarMapV) -> Result<ParamV, ErrorKind>
    decreases v, 0int, 0int,
{
    match param_of(v, i) {
        Some(x) => {
            proof {
                lemma_param_smaller(v, i);
            }
            dec_param(x, vm)
        },
        None => Ok(ParamV::Null),
    }
}

/// The variable named by slot `i` of block `v`: its id (the `id` member,
/// or the slot's text) named through `vm`.
pub open spec fn dec_var_slot(v: JsonV, i: int, vm: VarMapV) -> Result<Seq<char>, ErrorKind> {
    match param_of(v, i) {
        None | Some(JsonV::Null) => Err(ErrorKind::Parse),
        Some(x) => match jstr(jget(x, "id"@)) {
            Some(id) => Ok(resolved_name(vm, id)),
            None => match x {
                JsonV::Str(s) => Ok(resolved_name(vm, s)),
                _ => Err(ErrorKind::Parse),
            },
        },
    }
}

/// Slot `i` of a fixed-shape block `v`, by its layout `slot`.
pub open spec fn dec_slot(v: JsonV, i: int, slot: Slot, vm: VarMapV) -> Result<SlotV, ErrorKind>
    decreases v, 0int, 1int,
{
    match slot {
        Slot::Param => match dec_param_at(v, i, vm) {
            Ok(p) => Ok(SlotV::Param(p)),
            Err(k) => Err(k),
        },
        Slot::Empty => Ok(SlotV::Empty),
        Slot::Var | Slot::List => match dec_var_slot(v, i, vm) {
            Ok(n) => Ok(SlotV::Name(n)),
            Err(k) => Err(k),
        },
        Slot::Field(d) => Ok(SlotV::Name(str_or(param_of(v, i), default_text(d)))),
        Slot::Required => match jstr(param_of(v, i)) {
            Some(s) => Ok(SlotV::Name(s)),
            None => Err(ErrorKind::Parse),
        },
    }
}

/// The first `n` slots of a block of kind `k`, read from `v` left to right.
pub open spec fn dec_slots(v: JsonV, k: BasicKind, n: nat, vm: VarMapV) -> Result<Seq<SlotV>, ErrorKind>
    decreases v, 1int, n,
{
    if n == 0 {
        Ok(seq![])
    } else {
        match dec_slots(v, k, (n - 1) as nat, vm) {
            Err(e) => Err(e),
            Ok(prev) => match dec_slot(v, n - 1, layout(k)[n - 1], vm) {
                Err(e) => Err(e),
                Ok(s) => Ok(prev.push(s)),
            },
        }
    }
}

/// The first `n` parameter values of the array `items`.
pub open spec fn dec_param_list(items: Seq<JsonV>, n: nat, vm: VarMapV) -> Result<Seq<ParamV>, ErrorKind>
    decreases items, 0int, n,
{
    if n == 0 || n > items.len() {
        Ok(seq![])
    } else {
        match dec_param_list(items, (n - 1) as nat, vm) {
            Err(e) => Err(e),
            Ok(prev) => match dec_param(items[n - 1], vm) {
                Err(e) => Err(e),
                Ok(p) => Ok(prev.push(p)),
            },
        }
    }
}

/// The first `n` blocks of the array `items`.
pub open spec fn dec_block_list(items: Seq<JsonV>, n: nat, vm: VarMapV) -> Result<Seq<BlockV>, ErrorKind>
    decreases items, 0int, n,
{
    if n == 0 || n > items.len() {
        Ok(seq![])
    } else {
        match dec_block_list(items, (n - 1) as nat, vm) {
            Err(e) => Err(e),
            Ok(prev) => match dec_block(items[n - 1], vm) {
                Err(e) => Err(e),
                Ok(b) => Ok(prev.push(b)),
            },
        }
    }
}

/// Thread `idx` of block `v`; a missing thread is empty.
pub open spec fn dec_thread(v: JsonV, idx: int, vm: VarMapV) -> Result<Seq<BlockV>, ErrorKind>
    decreases v, 0int, 0int,
{
    match thread_of(v, idx) {
        Some(b) => {
            proof {
                lemma_thread_smaller(v, idx);
            }
            dec_block_list(b, b.len(), vm)
        },
        None => Ok(seq![]),
    }
}

/// Strings among `items`, in order.
pub open spec fn strings_of(items: Seq<JsonV>) -> Seq<Seq<char>>
    decreases items.len(),
{
    if items.len() == 0 {
        seq![]
    } else {
        let rest = strings_of(items.drop_last());
        match items.last() {
            JsonV::Str(s) => rest.push(s),
            _ => rest,
        }
    }
}

/// Effect named by a dropdown text; unknown names give `Color`.
pub open spec fn effect_or_color(s: Seq<char>) -> EffectType {
    match effect_named(s) {
        Some(e) => e,
        None => EffectType::Color,
    }
}

/// Whether a parameter of `change_to_some_shape` names a picture, and which.
pub open spec fn picture_of(x: JsonV) -> Option<Seq<char>> {
    if jget(x, "type"@) == Some(JsonV::Str("get_pictures"@)) && jstr(first_param(x)) is Some {
        jstr(first_param(x))
    } else {
        jstr(Some(x))
    }
}

/// A block read from JSON, by its type name. Variables are named through
/// `vm`.
pub open spec fn dec_block(v: JsonV, vm: VarMapV) -> Result<BlockV, ErrorKind>
    decreases v, 2int, 0int,
{
    match v {
        JsonV::Object(m) => match jstr(assoc(m, "type"@)) {
            None => Err(ErrorKind::Parse),
            Some(t) => match tag_named(t) {
                Some(TypeTag::Basic(k)) => match dec_slots(v, k, layout(k).len(), vm) {
                    Ok(s) => Ok(BlockV::Basic(k, s)),
                    Err(e) => Err(e),
                },
                Some(TypeTag::Alias(a)) => match dec_slots(v, alias_kind(a), layout(alias_kind(a)).len(), vm) {
                    Ok(s) => Ok(BlockV::Basic(alias_kind(a), s)),
                    Err(e) => Err(e),
                },
                Some(TypeTag::Special(sp)) => dec_special(v, sp, vm),
                None => if t.len() >= 5 && t.take(5) == "func_"@ {
                    Ok(BlockV::FuncCall(t, seq![]))
                } else {
                    Err(ErrorKind::Unmapped)
                },
            },
        },
        _ => Err(ErrorKind::Parse),
    }
}

/// The type name of a block with a type that names no Entry block and no
/// function.
pub open spec fn unknown_type(v: JsonV) -> Option<Seq<char>> {
    match jstr(jget(v, "type"@)) {
        Some(t) => if tag_named(t) is None && !(t.len() >= 5 && t.take(5) == "func_"@) {
            Some(t)
        } else {
            None
        },
        None => None,
    }
}

/// The tag whose Entry name is `t`.
pub open spec fn tag_named(t: Seq<char>) -> Option<TypeTag> {
    if exists|g: TypeTag| crate::block::kinds::tag_name(g) == t {
        Some(choose|g: TypeTag| crate::block::kinds::tag_name(g) == t)
    } else {
        None
    }
}

/// An operator block: `lhs`, operator word at 1, `rhs`.
pub open spec fn dec_binary(v: JsonV, vm: VarMapV) -> Result<(ParamV, crate::ir::BinOp, ParamV), ErrorKind>
    decreases v, 0int, 1int,
{
    match dec_param_at(v, 0, vm) {
        Err(e) => Err(e),
        Ok(l) => match jstr(param_of(v, 1)) {
            None => Err(ErrorKind::Parse),
            Some(o) => match op_named(o) {
                None => Err(ErrorKind::Syntax),
                Some(op) => match dec_param_at(v, 2, vm) {
                    Err(e) => Err(e),
                    Ok(r) => Ok((l, op, r)),
                },
            },
        },
    }
}

/// Blocks of their own shape.
pub open spec fn dec_special(v: JsonV, sp: SpecialType, vm: VarMapV) -> Result<BlockV, ErrorKind>
    decreases v, 1int, 0int,
{
    match sp {
        SpecialType::ReachSomething => Ok(
            BlockV::ReachSomeThing(
                match jstr(param_of(v, 1)) {
                    Some(s) => s,
                    None => str_or(param_of(v, 0), "self"@),
                },
            ),
        ),
        SpecialType::CalcBasic => match dec_binary(v, vm) {
            Ok((l, op, r)) => Ok(BlockV::CalcBinOp(op, l, r)),
            Err(e) => Err(e),
        },
        SpecialType::BooleanBasic | SpecialType::BooleanBasicOperator => match dec_binary(v, vm) {
            Ok((l, op, r)) => Ok(BlockV::Compare(op, l, r)),
            Err(e) => Err(e),
        },
        SpecialType::BooleanAndOr => match dec_binary(v, vm) {
            Ok((l, op, r)) => Ok(BlockV::BoolOp(op, l, r)),
            Err(e) => Err(e),
        },
        SpecialType::CalcUnary | SpecialType::BooleanNot => match dec_param_at(v, 0, vm) {
            Err(e) => Err(e),
            Ok(e) => {
                let o = str_or(param_of(v, 1), ""@);
                if o == "-"@ {
                    Ok(BlockV::UnaryOp(UnaryOp::Neg, e))
                } else if o == "!"@ {
                    Ok(BlockV::UnaryOp(UnaryOp::Not, e))
                } else {
                    Err(ErrorKind::Syntax)
                }
            },
        },
        SpecialType::CalcOperation => match dec_param_at(v, 1, vm) {
            Err(e) => Err(e),
            Ok(e) => Ok(
                BlockV::CalcOperation(
                    match jstr(param_of(v, 3)) {
                        Some(s) => match math_op_named(s) {
                            Some(op) => op,
                            None => MathOperation::Abs,
                        },
                        None => MathOperation::Abs,
                    },
                    e,
                ),
            ),
        },
        SpecialType::CalcRand => match dec_param_at(v, 1, vm) {
            Err(e) => Err(e),
            Ok(lo) => match dec_param_at(v, 3, vm) {
                Err(e) => Err(e),
                Ok(hi) => Ok(BlockV::CalcRand(lo, hi)),
            },
        },
        SpecialType::QuotientAndMod => match dec_param_at(v, 1, vm) {
            Err(e) => Err(e),
            Ok(a) => match dec_param_at(v, 3, vm) {
                Err(e) => Err(e),
                Ok(b) => Ok(
                    BlockV::QuotientAndMod(
                        a,
                        b,
                        if jstr(param_of(v, 5)) == Some("modulo"@) {
                            QamMethod::Mod
                        } else {
                            QamMethod::Quotient
                        },
                    ),
                ),
            },
        },
        SpecialType::ChooseProjectTimerAction => Ok(
            BlockV::ChooseProjectTimerAction(lower_ascii(str_or(param_of(v, 1), "start"@))),
        ),
        SpecialType::SetVisibleProjectTimer => Ok(
            BlockV::SetVisibleProjectTimer(
                match jstr(param_of(v, 1)) {
                    Some(s) => s == "SHOW"@,
                    None => true,
                },
            ),
        ),
        SpecialType::SetVisibleAnswer => Ok(
            BlockV::SetVisibleAnswer(
                match jstr(param_of(v, 1)) {
                    Some(s) => s == "SHOW"@,
                    None => true,
                },
            ),
        ),
        SpecialType::Number => match dec_number(param_of(v, 0)) {
            Some(n) => Ok(BlockV::Number(n)),
            None => Err(ErrorKind::Parse),
        },
        SpecialType::Angle => match dec_number(param_of(v, 0)) {
            Some(n) => Ok(BlockV::Angle(n)),
            None => Err(ErrorKind::Parse),
        },
        SpecialType::Text => match jstr(param_of(v, 0)) {
            Some(s) => Ok(BlockV::Text(s)),
            None => Err(ErrorKind::Parse),
        },
        SpecialType::Color => match jstr(param_of(v, 0)) {
            Some(s) => Ok(BlockV::Color(s)),
            None => Err(ErrorKind::Parse),
        },
        SpecialType::Boolean => match jbool(param_of(v, 0)) {
            Some(b) => Ok(BlockV::Boolean(b)),
            None => Err(ErrorKind::Parse),
        },
        SpecialType::StringConcat => match jget(v, "params"@) {
            Some(JsonV::Array(items)) => {
                proof {
                    lemma_params_smaller(v);
                }
                match dec_param_list(items, items.len(), vm) {
                    Ok(ps) => Ok(BlockV::StringConcat(ps)),
                    Err(e) => Err(e),
                }
            },
            _ => Ok(BlockV::StringConcat(seq![])),
        },
        SpecialType::FunctionCall => match jstr(param_of(v, 0)) {
            None => Err(ErrorKind::Parse),
            Some(name) => match param_of(v, 2) {
                Some(JsonV::Array(items)) => {
                    proof {
                        lemma_param_smaller(v, 2);
                    }
                    match dec_param_list(items, items.len(), vm) {
                        Ok(ps) => Ok(BlockV::FuncCall(name, ps)),
                        Err(e) => Err(e),
                    }
                },
                _ => Ok(BlockV::FuncCall(name, seq![])),
            },
        },
        SpecialType::FunctionCreate => match jstr(param_of(v, 0)) {
            None => Err(ErrorKind::Parse),
            Some(name) => match dec_thread(v, 0, vm) {
                Err(e) => Err(e),
                Ok(body) => Ok(BlockV::FuncDef(name, names_param(v), body)),
            },
        },
        SpecialType::FunctionCreateValue => match jstr(param_of(v, 0)) {
            None => Err(ErrorKind::Parse),
            Some(name) => match dec_thread(v, 0, vm) {
                Err(e) => Err(e),
                Ok(body) => match param_of(v, 3) {
                    Some(x) => if x is Null {
                        Ok(BlockV::FuncDef(name, names_param(v), body))
                    } else {
                        proof {
                            lemma_param_smaller(v, 3);
                        }
                        match dec_param(x, vm) {
                            Err(e) => Err(e),
                            Ok(r) => Ok(
                                BlockV::FuncDef(name, names_param(v), body.push(BlockV::Return(Some(r)))),
                            ),
                        }
                    },
                    None => Ok(BlockV::FuncDef(name, names_param(v), body)),
                },
            },
        },
        SpecialType::FunctionReturn => match param_of(v, 0) {
            Some(x) => if x is Null {
                Ok(BlockV::Return(None))
            } else {
                proof {
                    lemma_param_smaller(v, 0);
                }
                match dec_param(x, vm) {
                    Err(e) => Err(e),
                    Ok(r) => Ok(BlockV::Return(Some(r))),
                }
            },
            None => Ok(BlockV::Return(None)),
        },
        SpecialType::If | SpecialType::AltIf => match dec_param_at(v, 0, vm) {
            Err(e) => Err(e),
            Ok(c) => match dec_thread(v, 0, vm) {
                Err(e) => Err(e),
                Ok(body) => Ok(BlockV::If(c, body)),
            },
        },
        SpecialType::IfElse => match dec_param_at(v, 0, vm) {
            Err(e) => Err(e),
            Ok(c) => match dec_thread(v, 0, vm) {
                Err(e) => Err(e),
                Ok(tb) => match dec_thread(v, 1, vm) {
                    Err(e) => Err(e),
                    Ok(eb) => Ok(BlockV::IfElse(c, tb, eb)),
                },
            },
        },
        SpecialType::RepeatWhile | SpecialType::RepeatWhileTrue => match dec_param_at(v, 0, vm) {
            Err(e) => Err(e),
            Ok(c) => match dec_thread(v, 0, vm) {
                Err(e) => Err(e),
                Ok(body) => if c == ParamV::Boolean(true) {
                    Ok(BlockV::Forever(body))
                } else {
                    Ok(BlockV::While(c, body))
                },
            },
        },
        SpecialType::RepeatBasic => match dec_param_at(v, 0, vm) {
            Err(e) => Err(e),
            Ok(n) => match dec_thread(v, 0, vm) {
                Err(e) => Err(e),
                Ok(body) => Ok(BlockV::Repeat(n, body)),
            },
        },
        SpecialType::RepeatForever | SpecialType::RepeatInf => match dec_thread(v, 0, vm) {
            Err(e) => Err(e),
            Ok(body) => Ok(BlockV::Forever(body)),
        },
        SpecialType::Dialog => match dec_param_at(v, 0, vm) {
            Err(e) => Err(e),
            Ok(c) => Ok(BlockV::Dialog(dialog_mode_of(v), c)),
        },
        SpecialType::DialogTime => match dec_param_at(v, 0, vm) {
            Err(e) => Err(e),
            Ok(c) => match dec_param_at(v, 2, vm) {
                Err(e) => Err(e),
                Ok(tm) => Ok(BlockV::DialogTime(dialog_mode_of(v), c, tm)),
            },
        },
        SpecialType::ChangeToSomeShape => Ok(
            BlockV::ChangeToSomeShape(
                match param_of(v, 0) {
                    Some(x) => match picture_of(x) {
                        Some(s) => s,
                        None => ""@,
                    },
                    None => ""@,
                },
            ),
        ),
        SpecialType::AddEffectAmount => match dec_param_at(v, 1, vm) {
            Err(e) => Err(e),
            Ok(a) => Ok(BlockV::AddEffectAmount(effect_or_color(str_or(param_of(v, 0), "color"@)), a)),
        },
        SpecialType::ChangeEffectAmount => match dec_param_at(v, 1, vm) {
            Err(e) => Err(e),
            Ok(a) => Ok(BlockV::ChangeEffectAmount(effect_or_color(str_or(param_of(v, 0), "color"@)), a)),
        },
        SpecialType::StretchScaleSize => match dec_param_at(v, 1, vm) {
            Err(e) => Err(e),
            Ok(a) => Ok(
                BlockV::StretchScaleSize(
                    if str_or(param_of(v, 0), "WIDTH"@) == "HEIGHT"@ {
                        Dimension::Height
                    } else {
                        Dimension::Width
                    },
                    a,
                ),
            ),
        },
        SpecialType::TextChangeEffect => match dec_param_at(v, 0, vm) {
            Err(e) => Err(e),
            Ok(ep) => match dec_param_at(v, 1, vm) {
                Err(e) => Err(e),
                Ok(mp) => match ep {
                    ParamV::Text(s) => match text_effect_named(s) {
                        None => Err(ErrorKind::Syntax),
                        Some(eff) => if mp == ParamV::Text("on"@) {
                            Ok(BlockV::TextChangeEffect(eff, true))
                        } else if mp == ParamV::Text("off"@) {
                            Ok(BlockV::TextChangeEffect(eff, false))
                        } else {
                            Err(ErrorKind::Syntax)
                        },
                    },
                    _ => Err(ErrorKind::Syntax),
                },
            },
        },
        SpecialType::TextChangeFont => match dec_param_at(v, 0, vm) {
            Err(e) => Err(e),
            Ok(ParamV::Text(f)) => Ok(BlockV::TextChangeFont(f)),
            Ok(_) => Err(ErrorKind::Syntax),
        },
    }
}

/// The whole `params` array of a block is smaller than the block.
pub proof fn lemma_params_smaller(v: JsonV)
    ensures
        jget(v, "params"@) matches Some(x) ==> decreases_to!(v => x),
{
    if let JsonV::Object(m) = v {
        lemma_assoc_smaller(m, "params"@);
    }
}

/// Parameter names of a function definition: the strings of its second
/// parameter.
pub open spec fn names_param(v: JsonV) -> Seq<Seq<char>> {
    match param_of(v, 1) {
        Some(JsonV::Array(items)) => strings_of(items),
        _ => seq![],
    }
}

/// Speech or thought, by the second parameter.
pub open spec fn dialog_mode_of(v: JsonV) -> DialogMode {
    if jstr(param_of(v, 1)) == Some("think"@) {
        DialogMode::Think
    } else {
        DialogMode::Say
    }
}

/// A number read from a number parameter: a JSON number, or a string in
/// the grammar that `str::parse::<f64>` accepts.
pub open spec fn dec_number(j: Option<JsonV>) -> Option<Seq<char>> {
    match j {
        Some(JsonV::Number(n)) => Some(n),
        Some(JsonV::Str(s)) => if is_float_text(s) {
            Some(s)
        } else {
            None
        },
        _ => None,
    }
}


// ---------------------------------------------------------------------
// Executable reading of blocks.
// ---------------------------------------------------------------------

/// Whether `r` agrees with the specification `spec`: the same block on
/// success, an error of the same kind on failure.
pub open spec fn agrees<T, V>(r: crate::error::Result<T>, spec: Result<V, ErrorKind>, view: spec_fn(T) -> V) -> bool {
    match r {
        Ok(x) => spec == Ok::<V, ErrorKind>(view(x)),
        Err(e) => spec == Err::<V, ErrorKind>(e.kind()),
    }
}

fn parse_error(msg: &str) -> (e: Error)
    ensures
        e.kind() == ErrorKind::Parse,
        e.text() == msg@,
{
    Error::Parse(msg.to_owned())
}

fn syntax_error(msg: &str) -> (e: Error)
    ensures
        e.kind() == ErrorKind::Syntax,
{
    Error::SyntaxError(msg.to_owned())
}

/// Once a left-to-right read fails, reading further fails the same way.
proof fn lemma_slots_err(v: JsonV, k: BasicKind, i: nat, n: nat, vm: VarMapV)
    requires
        i <= n,
        dec_slots(v, k, i, vm) is Err,
    ensures
        dec_slots(v, k, n, vm) == dec_slots(v, k, i, vm),
    decreases n,
{
    if n > i {
        lemma_slots_err(v, k, i, (n - 1) as nat, vm);
    }
}

proof fn lemma_param_list_err(items: Seq<JsonV>, i: nat, n: nat, vm: VarMapV)
    requires
        i <= n <= items.len(),
        dec_param_list(items, i, vm) is Err,
    ensures
        dec_param_list(items, n, vm) == dec_param_list(items, i, vm),
    decreases n,
{
    if n > i {
        lemma_param_list_err(items, i, (n - 1) as nat, vm);
    }
}

proof fn lemma_block_list_err(items: Seq<JsonV>, i: nat, n: nat, vm: VarMapV)
    requires
        i <= n <= items.len(),
        dec_block_list(items, i, vm) is Err,
    ensures
        dec_block_list(items, n, vm) == dec_block_list(items, i, vm),
    decreases n,
{
    if n > i {
        lemma_block_list_err(items, i, (n - 1) as nat, vm);
    }
}

/// The name the table gives variable `id`, or `id` itself.
pub fn resolve_var(id: &str, vars: &VarMap) -> (r: String)
    ensures
        r@ == resolved_name(vars@, id@),
{
    match vars.get(id) {
        Some(info) => info.name.clone(),
        None => id.to_owned(),
    }
}

/// Element `i` of the `params` array of block `v`.
fn param_ref(v: &Json, i: usize) -> (r: Option<&Json>)
    ensures
        r matches Some(x) ==> param_of(v@, i as int) == Some(x@),
        r is None ==> param_of(v@, i as int) is None,
{
    match v.get("params") {
        Some(p) => p.at(i),
        None => None,
    }
}

/// First element of the `params` array of `v`.
fn first_ref(v: &Json) -> (r: Option<&Json>)
    ensures
        r matches Some(x) ==> first_param(v@) == Some(x@),
        r is None ==> first_param(v@) is None,
{
    match v.get("params") {
        Some(p) => match p.as_array() {
            Some(a) => {
                proof {
                    crate::json::lemma_array_view(*a);
                }
                if a.len() > 0 {
                    Some(&a[0])
                } else {
                    None
                }
            },
            None => None,
        },
        None => None,
    }
}

/// The text of an optional JSON string.
pub fn str_of_pub(j: Option<&Json>) -> (r: Option<&str>)
    ensures
        r matches Some(s) ==> jstr(opt_view(j)) == Some(s@),
        r is None ==> jstr(opt_view(j)) is None,
{
    str_of(j)
}

fn str_of(j: Option<&Json>) -> (r: Option<&str>)
    ensures
        r matches Some(s) ==> jstr(opt_view(j)) == Some(s@),
        r is None ==> jstr(opt_view(j)) is None,
{
    match j {
        Some(x) => x.as_str(),
        None => None,
    }
}

/// View of an optional reference to a document.
pub open spec fn opt_view(j: Option<&Json>) -> Option<JsonV> {
    match j {
        Some(x) => Some(x@),
        None => None,
    }
}

fn text_or(j: Option<&Json>, d: &str) -> (r: String)
    ensures
        r@ == str_or(opt_view(j), d@),
{
    match str_of(j) {
        Some(s) => s.to_owned(),
        None => d.to_owned(),
    }
}

/// Whether `s` begins with `p`.
fn has_prefix(s: &str, p: &str) -> (r: bool)
    ensures
        r == (s@.len() >= p@.len() && s@.take(p@.len() as int) == p@),
{
    let n = crate::text::char_len(s);
    let m = crate::text::char_len(p);
    if n < m {
        return false;
    }
    let mut i: usize = 0;
    while i < m
        invariant
            i <= m <= n,
            n == s@.len(),
            m == p@.len(),
            forall|j: int| 0 <= j < i ==> s@[j] == p@[j],
        decreases m - i,
    {
        if crate::text::char_at(s, i) != crate::text::char_at(p, i) {
            proof {
                assert(s@.take(m as int)[i as int] != p@[i as int]);
            }
            return false;
        }
        i = i + 1;
    }
    proof {
        assert(s@.take(m as int) =~= p@);
    }
    true
}

/// The tag named by a known type name is that tag.
pub proof fn lemma_tag_named_pub(t: TypeTag, s: Seq<char>)
    requires
        crate::block::kinds::tag_name(t) == s,
    ensures
        tag_named(s) == Some(t),
{
    lemma_tag_named(t, s);
}

proof fn lemma_tag_named(t: TypeTag, s: Seq<char>)
    requires
        crate::block::kinds::tag_name(t) == s,
    ensures
        tag_named(s) == Some(t),
{
    let g = choose|g: TypeTag| crate::block::kinds::tag_name(g) == s;
    crate::block::kinds::lemma_tag_names_distinct(g, t);
}

/// Literal and placeholder parameters of a typed object.
fn simple_typed_param(v: &Json, t: &str) -> (r: Option<ParamBlock>)
    ensures
        r matches Some(p) ==> simple_typed(v@, t@) == Some(p@),
        r is None ==> simple_typed(v@, t@) is None,
{
    let first = first_ref(v);
    proof {
        reveal_strlit("number");
        reveal_strlit("text");
        reveal_strlit("boolean");
        reveal_strlit("True");
        reveal_strlit("False");
        reveal_strlit("get_sounds");
        reveal_strlit("get_pictures");
        reveal_strlit("text_color");
        reveal_strlit("function_field_label");
        reveal_strlit("function_field_string");
        reveal_strlit("get_table_fields");
        reveal_strlit("function_field_boolean");
        reveal_strlit("text_box_with_self");
        reveal_strlit("textBoxWithSelf");
        reveal_strlit("angle");
        reveal_strlit("wildcard_string");
        reveal_strlit("wildcard_boolean");
        reveal_strlit("get_sound_volume");
    }
    let is = |x: &str| -> (b: bool)
        ensures
            b == (t@ == x@),
        { crate::text::str_is(t, x) };
    if (is("number") || is("angle")) && matches!(first, Some(Json::Number(_))) {
        if let Some(Json::Number(n)) = first {
            return Some(ParamBlock::Number(n.clone()));
        }
    }
    if (is("text") || is("get_sounds") || is("get_pictures") || is("text_color")) && str_of(first).is_some() {
        if let Some(s) = str_of(first) {
            return Some(ParamBlock::Text(s.to_owned()));
        }
    }
    if is("boolean") || is("True") || is("False") {
        return match first {
            Some(Json::Bool(b)) => Some(ParamBlock::Boolean(*b)),
            _ => Some(ParamBlock::Boolean(is("True"))),
        };
    }
    if is("function_field_label") || is("function_field_string") || is("get_table_fields") {
        return Some(ParamBlock::Text(text_or(first, "")));
    }
    if is("function_field_boolean") {
        let b = match first {
            Some(Json::Bool(b)) => *b,
            _ => false,
        };
        return Some(ParamBlock::Boolean(b));
    }
    if is("text_box_with_self") || is("textBoxWithSelf") {
        return Some(ParamBlock::Text(text_or(first, "self")));
    }
    if is("wildcard_string") || is("wildcard_boolean") {
        return Some(ParamBlock::Null);
    }
    if is("get_sound_volume") {
        let slots: Vec<SlotValue> = Vec::new();
        proof {
            assert(SlotValue::seq_view(&slots) =~= Seq::<SlotV>::empty());
        }
        return Some(ParamBlock::Sub(Box::new(Block::Basic { kind: BasicKind::GetSoundVolume, slots })));
    }
    None
}

/// A parameter value read from JSON; variables are named through `vars`.
pub fn value_to_param(v: &Json, vars: &VarMap) -> (r: crate::error::Result<ParamBlock>)
    ensures
        agrees(r, dec_param(v@, vars@), |p: ParamBlock| p@),
    decreases v@, 4int, 0int,
{
    match v {
        Json::Null => Ok(ParamBlock::Null),
        Json::Number(n) => Ok(ParamBlock::Number(n.clone())),
        Json::Str(s) => Ok(ParamBlock::Text(s.clone())),
        Json::Bool(b) => Ok(ParamBlock::Boolean(*b)),
        Json::Array(_) => Err(parse_error("unknown param shape")),
        Json::Object(members) => {
            proof {
                crate::json::lemma_object_view(*members);
            }
            let ty = v.get("type");
            let idv = v.get("id");
            if ty.is_none() && idv.is_some() && v.get("name").is_some() {
                let id = text_or(idv, "");
                return Ok(ParamBlock::Variable(resolve_var(id.as_str(), vars)));
            }
            match str_of(ty) {
                Some(t) => typed_param(v, t, vars),
                None => match block_from_value(v, vars) {
                    Ok(b) => Ok(ParamBlock::Sub(Box::new(b))),
                    Err(e) => Err(e),
                },
            }
        },
    }
}

/// A parameter value read from an object of type `t`.
fn typed_param(v: &Json, t: &str, vars: &VarMap) -> (r: crate::error::Result<ParamBlock>)
    ensures
        agrees(r, dec_typed(v@, t@, vars@), |p: ParamBlock| p@),
    decreases v@, 3int, 0int,
{
    if let Some(p) = simple_typed_param(v, t) {
        return Ok(p);
    }
    if crate::text::str_is(t, "boolean_not") {
        let expr = match first_ref(v) {
            Some(p) => {
                proof {
                    lemma_param_smaller(v@, 0);
                }
                match value_to_param(p, vars) {
                    Ok(x) => {
                        proof {
                            assert(dec_param(p@, vars@) == Ok::<ParamV, ErrorKind>(x@));
                        }
                        x
                    },
                    Err(e) => return Err(e),
                }
            },
            None => ParamBlock::Null,
        };
        proof {
            assert(first_param(v@) is Some ==> dec_param(first_param(v@).unwrap(), vars@) == Ok::<ParamV, ErrorKind>(expr@));
            assert(first_param(v@) is None ==> expr@ == ParamV::Null);
        }
        return Ok(ParamBlock::Sub(Box::new(Block::UnaryOp { op: UnaryOp::Not, expr })));
    }
    if crate::text::str_is(t, "get_sound_duration") {
        return match str_of(param_ref(v, 1)) {
            Some(s) => {
                let slots = vec![SlotValue::Empty, SlotValue::Name(s.to_owned()), SlotValue::Empty];
                proof {
                    assert(SlotValue::seq_view(&slots) =~= seq![SlotV::Empty, SlotV::Name(s@), SlotV::Empty]);
                }
                Ok(ParamBlock::Sub(Box::new(Block::Basic { kind: BasicKind::GetSoundDuration, slots })))
            },
            None => Err(parse_error("get_sound_duration sound")),
        };
    }
    match block_from_value(v, vars) {
        Ok(b) => Ok(ParamBlock::Sub(Box::new(b))),
        Err(e) => Err(e),
    }
}

/// Parameter `i` of block `v`; a missing one is `Null`.
fn param_at(v: &Json, i: usize, vars: &VarMap) -> (r: crate::error::Result<ParamBlock>)
    ensures
        agrees(r, dec_param_at(v@, i as int, vars@), |p: ParamBlock| p@),
    decreases v@, 0int, 0int,
{
    match param_ref(v, i) {
        Some(x) => {
            proof {
                lemma_param_smaller(v@, i as int);
            }
            value_to_param(x, vars)
        },
        None => Ok(ParamBlock::Null),
    }
}

/// The variable named by slot `i` of block `v`, named through `vars`.
fn variable_slot(v: &Json, i: usize, vars: &VarMap) -> (r: crate::error::Result<String>)
    ensures
        agrees(r, dec_var_slot(v@, i as int, vars@), |n: String| n@),
{
    match param_ref(v, i) {
        None => Err(parse_error("variable slot null")),
        Some(x) => {
            if x.is_null() {
                return Err(parse_error("variable slot null"));
            }
            match str_of(x.get("id")) {
                Some(id) => Ok(resolve_var(id, vars)),
                None => match x.as_str() {
                    Some(name) => Ok(resolve_var(name, vars)),
                    None => Err(parse_error("variable slot shape")),
                },
            }
        },
    }
}

fn slot_value(v: &Json, i: usize, slot: Slot, vars: &VarMap) -> (r: crate::error::Result<SlotValue>)
    ensures
        agrees(r, dec_slot(v@, i as int, slot, vars@), |x: SlotValue| x@),
    decreases v@, 0int, 1int,
{
    match slot {
        Slot::Param => match param_at(v, i, vars) {
            Ok(p) => Ok(SlotValue::Param(p)),
            Err(e) => Err(e),
        },
        Slot::Empty => Ok(SlotValue::Empty),
        Slot::Var | Slot::List => match variable_slot(v, i, vars) {
            Ok(n) => Ok(SlotValue::Name(n)),
            Err(e) => Err(e),
        },
        Slot::Field(d) => Ok(
            SlotValue::Name(text_or(param_ref(v, i), crate::block::kinds::default_str(d))),
        ),
        Slot::Required => match str_of(param_ref(v, i)) {
            Some(t) => Ok(SlotValue::Name(t.to_owned())),
            None => Err(parse_error("missing text slot")),
        },
    }
}

/// The slots of a fixed-shape block of kind `k`, read left to right.
fn basic_slots(v: &Json, k: BasicKind, vars: &VarMap) -> (r: crate::error::Result<Vec<SlotValue>>)
    ensures
        agrees(r, dec_slots(v@, k, layout(k).len(), vars@), |x: Vec<SlotValue>| crate::block::slot_views(x@)),
    decreases v@, 1int, 0int,
{
    let lay = crate::block::kinds::layout_of(k);
    let mut out: Vec<SlotValue> = Vec::new();
    let mut i: usize = 0;
    proof {
        assert(crate::block::slot_views(out@) =~= Seq::<SlotV>::empty());
    }
    while i < lay.len()
        invariant
            i <= lay.len(),
            lay@ == layout(k),
            dec_slots(v@, k, i as nat, vars@) == Ok::<Seq<SlotV>, ErrorKind>(crate::block::slot_views(out@)),
        decreases lay.len() - i,
    {
        match slot_value(v, i, lay[i], vars) {
            Ok(x) => {
                let ghost before = out@;
                out.push(x);
                proof {
                    assert(crate::block::slot_views(out@) =~= crate::block::slot_views(before).push(x@));
                }
            },
            Err(e) => {
                proof {
                    lemma_slots_err(v@, k, (i + 1) as nat, layout(k).len(), vars@);
                }
                return Err(e);
            },
        }
        i = i + 1;
    }
    Ok(out)
}

/// Parameter values of the JSON array `items`, read left to right.
fn param_list(items: &Vec<Json>, vars: &VarMap) -> (r: crate::error::Result<Vec<ParamBlock>>)
    ensures
        agrees(
            r,
            dec_param_list(crate::json::json_views(items@), items@.len(), vars@),
            |x: Vec<ParamBlock>| crate::block::param_views(x@),
        ),
    decreases crate::json::json_views(items@), 0int, items@.len(),
{
    let ghost jv = crate::json::json_views(items@);
    let mut out: Vec<ParamBlock> = Vec::new();
    let mut i: usize = 0;
    proof {
        assert(crate::block::param_views(out@) =~= Seq::<ParamV>::empty());
    }
    while i < items.len()
        invariant
            i <= items.len(),
            jv == crate::json::json_views(items@),
            dec_param_list(jv, i as nat, vars@) == Ok::<Seq<ParamV>, ErrorKind>(crate::block::param_views(out@)),
        decreases items.len() - i,
    {
        proof {
            assert(jv[i as int] == items@[i as int]@);
            assert(decreases_to!(jv => jv[i as int]));
        }
        match value_to_param(&items[i], vars) {
            Ok(x) => {
                let ghost before = out@;
                out.push(x);
                proof {
                    assert(crate::block::param_views(out@) =~= crate::block::param_views(before).push(x@));
                }
            },
            Err(e) => {
                proof {
                    lemma_param_list_err(jv, (i + 1) as nat, items@.len(), vars@);
                }
                return Err(e);
            },
        }
        i = i + 1;
    }
    Ok(out)
}

/// Thread `idx` of block `v`: the blocks under `statements[idx]`, or
/// none when it is missing.
fn statements_thread(v: &Json, idx: usize, vars: &VarMap) -> (r: crate::error::Result<Vec<Block>>)
    ensures
        agrees(r, dec_thread(v@, idx as int, vars@), |x: Vec<Block>| crate::block::block_views(x@)),
    decreases v@, 0int, 0int,
{
    proof {
        assert(crate::block::block_views(Seq::<Block>::empty()) =~= Seq::<BlockV>::empty());
    }
    let st = match v.get("statements") {
        Some(st) => st,
        None => return Ok(Vec::new()),
    };
    let items = match st.at(idx) {
        Some(Json::Array(items)) => items,
        _ => {
            proof {
                assert(crate::block::block_views(Seq::<Block>::empty()) =~= Seq::<BlockV>::empty());
            }
            return Ok(Vec::new());
        },
    };
    proof {
        crate::json::lemma_array_view(*items);
        lemma_thread_smaller(v@, idx as int);
    }
    let ghost jv = crate::json::json_views(items@);
    let mut out: Vec<Block> = Vec::new();
    let mut i: usize = 0;
    proof {
        assert(crate::block::block_views(out@) =~= Seq::<BlockV>::empty());
    }
    while i < items.len()
        invariant
            i <= items.len(),
            jv == crate::json::json_views(items@),
            thread_of(v@, idx as int) == Some(jv),
            decreases_to!(v@ => jv),
            dec_block_list(jv, i as nat, vars@) == Ok::<Seq<BlockV>, ErrorKind>(crate::block::block_views(out@)),
        decreases items.len() - i,
    {
        proof {
            assert(jv[i as int] == items@[i as int]@);
            assert(decreases_to!(jv => jv[i as int]));
        }
        match block_from_value(&items[i], vars) {
            Ok(x) => {
                let ghost before = out@;
                out.push(x);
                proof {
                    assert(crate::block::block_views(out@) =~= crate::block::block_views(before).push(x@));
                }
            },
            Err(e) => {
                proof {
                    lemma_block_list_err(jv, (i + 1) as nat, items@.len(), vars@);
                }
                return Err(e);
            },
        }
        i = i + 1;
    }
    Ok(out)
}

/// A block read from JSON by its type name; variables are named through
/// `vars`. An unknown type is an `UnmappedBlock` error.
pub fn block_from_value(v: &Json, vars: &VarMap) -> (r: crate::error::Result<Block>)
    ensures
        agrees(r, dec_block(v@, vars@), |b: Block| b@),
        !(v@ is Object) ==> (r matches Err(e) && e is Parse && e.text() == "block must be object"@),
        v@ is Object && jstr(jget(v@, "type"@)) is None ==> (r matches Err(e) && e is Parse && e.text()
            == "block.type missing"@),
        unknown_type(v@) matches Some(t) ==> (r matches Err(e) && e is UnmappedBlock && e.text()
            == "entry block type: "@ + t),
    decreases v@, 2int, 0int,
{
    if !v.is_object() {
        return Err(parse_error("block must be object"));
    }
    let t = match str_of(v.get("type")) {
        Some(t) => t,
        None => return Err(parse_error("block.type missing")),
    };
    match find_tag(t) {
        Some(TypeTag::Basic(k)) => {
            proof {
                lemma_tag_named(TypeTag::Basic(k), t@);
            }
            match basic_slots(v, k, vars) {
                Ok(slots) => {
                    proof {
                        crate::block::lemma_slot_seq_view(&slots);
                    }
                    Ok(Block::Basic { kind: k, slots })
                },
                Err(e) => Err(e),
            }
        },
        Some(TypeTag::Alias(a)) => {
            proof {
                lemma_tag_named(TypeTag::Alias(a), t@);
            }
            let k = crate::block::kinds::alias_kind_of(a);
            match basic_slots(v, k, vars) {
                Ok(slots) => {
                    proof {
                        crate::block::lemma_slot_seq_view(&slots);
                    }
                    Ok(Block::Basic { kind: k, slots })
                },
                Err(e) => Err(e),
            }
        },
        Some(TypeTag::Special(sp)) => {
            proof {
                lemma_tag_named(TypeTag::Special(sp), t@);
            }
            special_from_value(v, sp, vars)
        },
        None => {
            proof {
                reveal_strlit("func_");
            }
            if has_prefix(t, "func_") {
                let args: Vec<ParamBlock> = Vec::new();
                proof {
                    assert(ParamBlock::seq_view(&args) =~= Seq::<ParamV>::empty());
                }
                Ok(Block::FuncCall { name: t.to_owned(), args })
            } else {
                let mut msg = "entry block type: ".to_owned();
                crate::text::push_str(&mut msg, t);
                Err(Error::UnmappedBlock(msg))
            }
        },
    }
}


/// Operands and operator of a binary block.
fn binary_parts(v: &Json, vars: &VarMap) -> (r: crate::error::Result<(ParamBlock, crate::ir::BinOp, ParamBlock)>)
    ensures
        agrees(
            r,
            dec_binary(v@, vars@),
            |x: (ParamBlock, crate::ir::BinOp, ParamBlock)| (x.0@, x.1, x.2@),
        ),
    decreases v@, 0int, 1int,
{
    let l = match param_at(v, 0, vars) {
        Ok(l) => l,
        Err(e) => return Err(e),
    };
    let o = match str_of(param_ref(v, 1)) {
        Some(o) => o,
        None => return Err(parse_error("operator slot")),
    };
    let op = match crate::block::names::op_from_str(o) {
        Some(op) => op,
        None => {
            let mut msg = "op: ".to_owned();
            crate::text::push_str(&mut msg, o);
            return Err(Error::SyntaxError(msg));
        },
    };
    match param_at(v, 2, vars) {
        Ok(r) => Ok((l, op, r)),
        Err(e) => Err(e),
    }
}

/// A block of its own shape, of type group `sp`.
fn special_from_value(v: &Json, sp: SpecialType, vars: &VarMap) -> (r: crate::error::Result<Block>)
    ensures
        agrees(r, dec_special(v@, sp, vars@), |b: Block| b@),
    decreases v@, 1int, 0int,
{
    match sp {
        SpecialType::CalcBasic | SpecialType::BooleanBasic | SpecialType::BooleanBasicOperator
        | SpecialType::BooleanAndOr | SpecialType::CalcUnary | SpecialType::BooleanNot
        | SpecialType::CalcOperation | SpecialType::CalcRand | SpecialType::QuotientAndMod => operator_from_value(v, sp, vars),
        SpecialType::FunctionCreate | SpecialType::FunctionCreateValue | SpecialType::FunctionReturn
        | SpecialType::If | SpecialType::AltIf | SpecialType::IfElse | SpecialType::RepeatWhile
        | SpecialType::RepeatWhileTrue | SpecialType::RepeatBasic | SpecialType::RepeatForever
        | SpecialType::RepeatInf => flow_from_value(v, sp, vars),
        SpecialType::Dialog | SpecialType::DialogTime | SpecialType::ChangeToSomeShape
        | SpecialType::AddEffectAmount | SpecialType::ChangeEffectAmount
        | SpecialType::StretchScaleSize | SpecialType::TextChangeEffect
        | SpecialType::TextChangeFont => looks_from_value(v, sp, vars),
        _ => literal_from_value(v, sp, vars),
    }
}

/// Operator blocks.
fn operator_from_value(v: &Json, sp: SpecialType, vars: &VarMap) -> (r: crate::error::Result<Block>)
    requires
        sp is CalcBasic || sp is BooleanBasic || sp is BooleanBasicOperator || sp is BooleanAndOr
            || sp is CalcUnary || sp is BooleanNot || sp is CalcOperation || sp is CalcRand
            || sp is QuotientAndMod,
    ensures
        agrees(r, dec_special(v@, sp, vars@), |b: Block| b@),
    decreases v@, 0int, 2int,
{
    match sp {
        SpecialType::CalcBasic => match binary_parts(v, vars) {
            Ok((lhs, op, rhs)) => Ok(Block::CalcBinOp { op, lhs, rhs }),
            Err(e) => Err(e),
        },
        SpecialType::BooleanAndOr => match binary_parts(v, vars) {
            Ok((lhs, op, rhs)) => Ok(Block::BoolOp { op, lhs, rhs }),
            Err(e) => Err(e),
        },
        SpecialType::CalcUnary | SpecialType::BooleanNot => {
            let expr = match param_at(v, 0, vars) {
                Ok(e) => e,
                Err(e) => return Err(e),
            };
            let o = text_or(param_ref(v, 1), "");
            proof {
                reveal_strlit("-");
                reveal_strlit("!");
            }
            if crate::text::str_is(o.as_str(), "-") {
                Ok(Block::UnaryOp { op: UnaryOp::Neg, expr })
            } else if crate::text::str_is(o.as_str(), "!") {
                Ok(Block::UnaryOp { op: UnaryOp::Not, expr })
            } else {
                let mut msg = "calc_unary op: ".to_owned();
                crate::text::push_str(&mut msg, o.as_str());
                Err(Error::SyntaxError(msg))
            }
        },
        SpecialType::CalcOperation => {
            let op = match str_of(param_ref(v, 3)) {
                Some(name) => match crate::block::names::calc_op_from_name(name) {
                    Some(op) => op,
                    None => MathOperation::Abs,
                },
                None => MathOperation::Abs,
            };
            match param_at(v, 1, vars) {
                Ok(expr) => Ok(Block::CalcOperation { op, expr }),
                Err(e) => Err(e),
            }
        },
        SpecialType::CalcRand => {
            let min = match param_at(v, 1, vars) {
                Ok(x) => x,
                Err(e) => return Err(e),
            };
            match param_at(v, 3, vars) {
                Ok(max) => Ok(Block::CalcRand { min, max }),
                Err(e) => Err(e),
            }
        },
        SpecialType::QuotientAndMod => {
            let a = match param_at(v, 1, vars) {
                Ok(x) => x,
                Err(e) => return Err(e),
            };
            let b = match param_at(v, 3, vars) {
                Ok(x) => x,
                Err(e) => return Err(e),
            };
            let mode = match str_of(param_ref(v, 5)) {
                Some(m) => if crate::text::str_is(m, "modulo") {
                    QamMethod::Mod
                } else {
                    QamMethod::Quotient
                },
                None => QamMethod::Quotient,
            };
            Ok(Block::QuotientAndMod { a, b, mode })
        },
        _ => match binary_parts(v, vars) {
            Ok((lhs, op, rhs)) => Ok(Block::Compare { op, lhs, rhs }),
            Err(e) => Err(e),
        },
    }
}

/// Literal, text and call blocks.
fn literal_from_value(v: &Json, sp: SpecialType, vars: &VarMap) -> (r: crate::error::Result<Block>)
    requires
        sp is ReachSomething || sp is ChooseProjectTimerAction || sp is SetVisibleProjectTimer
            || sp is SetVisibleAnswer || sp is Number || sp is Text || sp is Boolean || sp is Angle
            || sp is Color || sp is StringConcat || sp is FunctionCall,
    ensures
        agrees(r, dec_special(v@, sp, vars@), |b: Block| b@),
    decreases v@, 0int, 2int,
{
    match sp {
        SpecialType::ReachSomething => {
            let target = match str_of(param_ref(v, 1)) {
                Some(t) => t.to_owned(),
                None => text_or(param_ref(v, 0), "self"),
            };
            Ok(Block::ReachSomeThing { target })
        },
        SpecialType::ChooseProjectTimerAction => {
            let a = text_or(param_ref(v, 1), "start");
            Ok(Block::ChooseProjectTimerAction { action: crate::text::lower_string(a.as_str()) })
        },
        SpecialType::SetVisibleProjectTimer | SpecialType::SetVisibleAnswer => {
            let value = match str_of(param_ref(v, 1)) {
                Some(x) => crate::text::str_is(x, "SHOW"),
                None => true,
            };
            if sp == SpecialType::SetVisibleAnswer {
                Ok(Block::SetVisibleAnswer { value })
            } else {
                Ok(Block::SetVisibleProjectTimer { value })
            }
        },
        SpecialType::Number | SpecialType::Angle => {
            let n = match param_ref(v, 0) {
                Some(Json::Number(n)) => n.clone(),
                Some(Json::Str(t)) => if crate::text::is_float(t.as_str()) {
                    t.clone()
                } else {
                    return Err(parse_error("number param"));
                },
                _ => return Err(parse_error("number param")),
            };
            if sp == SpecialType::Number {
                Ok(Block::Number(n))
            } else {
                Ok(Block::Angle(n))
            }
        },
        SpecialType::Text | SpecialType::Color => match str_of(param_ref(v, 0)) {
            Some(t) => if sp == SpecialType::Text {
                Ok(Block::Text(t.to_owned()))
            } else {
                Ok(Block::Color(t.to_owned()))
            },
            None => Err(parse_error("text param")),
        },
        SpecialType::Boolean => match param_ref(v, 0) {
            Some(Json::Bool(b)) => Ok(Block::Boolean(*b)),
            _ => Err(parse_error("boolean param")),
        },
        SpecialType::StringConcat => match v.get("params") {
            Some(Json::Array(items)) => {
                proof {
                    crate::json::lemma_array_view(*items);
                    lemma_params_smaller(v@);
                    let a = JsonV::Array(crate::json::json_views(items@));
                    assert(decreases_to!(a => a->Array_0));
                }
                match param_list(items, vars) {
                    Ok(parts) => {
                        proof {
                            crate::block::lemma_param_seq_view(&parts);
                        }
                        Ok(Block::StringConcat { parts })
                    },
                    Err(e) => Err(e),
                }
            },
            _ => {
                let parts: Vec<ParamBlock> = Vec::new();
                proof {
                    assert(ParamBlock::seq_view(&parts) =~= Seq::<ParamV>::empty());
                }
                Ok(Block::StringConcat { parts })
            },
        },
        _ => {
            let name = match str_of(param_ref(v, 0)) {
                Some(n) => n.to_owned(),
                None => return Err(parse_error("function_call name")),
            };
            match param_ref(v, 2) {
                Some(Json::Array(items)) => {
                    proof {
                        crate::json::lemma_array_view(*items);
                        lemma_param_smaller(v@, 2);
                        let a = JsonV::Array(crate::json::json_views(items@));
                        assert(decreases_to!(a => a->Array_0));
                    }
                    match param_list(items, vars) {
                        Ok(args) => {
                            proof {
                                crate::block::lemma_param_seq_view(&args);
                            }
                            Ok(Block::FuncCall { name, args })
                        },
                        Err(e) => Err(e),
                    }
                },
                _ => {
                    let args: Vec<ParamBlock> = Vec::new();
                    proof {
                        assert(ParamBlock::seq_view(&args) =~= Seq::<ParamV>::empty());
                    }
                    Ok(Block::FuncCall { name, args })
                },
            }
        },
    }
}

/// Strings among the elements of a JSON array, in order.
fn string_items(items: &Vec<Json>) -> (r: Vec<String>)
    ensures
        r@.map_values(|x: String| x@) == strings_of(crate::json::json_views(items@)),
{
    let ghost jv = crate::json::json_views(items@);
    let mut out: Vec<String> = Vec::new();
    let mut i: usize = 0;
    proof {
        assert(out@.map_values(|x: String| x@) =~= Seq::<Seq<char>>::empty());
        assert(jv.take(0) =~= Seq::<JsonV>::empty());
    }
    while i < items.len()
        invariant
            i <= items.len(),
            jv == crate::json::json_views(items@),
            out@.map_values(|x: String| x@) == strings_of(jv.take(i as int)),
        decreases items.len() - i,
    {
        let ghost before = out@;
        proof {
            assert(jv.take(i + 1).drop_last() =~= jv.take(i as int));
            assert(jv.take(i + 1).last() == items@[i as int]@);
        }
        if let Json::Str(t) = &items[i] {
            out.push(t.clone());
            proof {
                assert(out@.map_values(|x: String| x@) =~= before.map_values(|x: String| x@).push(t@));
            }
        }
        i = i + 1;
    }
    proof {
        assert(jv.take(items.len() as int) =~= jv);
    }
    out
}

/// Parameter names of a function definition block.
fn names_of(v: &Json) -> (r: Vec<String>)
    ensures
        r@.map_values(|x: String| x@) == names_param(v@),
{
    match param_ref(v, 1) {
        Some(Json::Array(items)) => {
            proof {
                crate::json::lemma_array_view(*items);
            }
            string_items(items)
        },
        _ => {
            let r: Vec<String> = Vec::new();
            proof {
                assert(r@.map_values(|x: String| x@) =~= Seq::<Seq<char>>::empty());
            }
            r
        },
    }
}

/// Function and control-flow blocks.
fn flow_from_value(v: &Json, sp: SpecialType, vars: &VarMap) -> (r: crate::error::Result<Block>)
    requires
        sp is FunctionCreate || sp is FunctionCreateValue || sp is FunctionReturn || sp is If
            || sp is AltIf || sp is IfElse || sp is RepeatWhile || sp is RepeatWhileTrue
            || sp is RepeatBasic || sp is RepeatForever || sp is RepeatInf,
    ensures
        agrees(r, dec_special(v@, sp, vars@), |b: Block| b@),
    decreases v@, 0int, 2int,
{
    match sp {
        SpecialType::FunctionCreate | SpecialType::FunctionCreateValue => function_from_value(v, sp, vars),
        SpecialType::FunctionReturn => match param_ref(v, 0) {
            Some(x) => if x.is_null() {
                Ok(Block::Return { value: None })
            } else {
                proof {
                    lemma_param_smaller(v@, 0);
                }
                match value_to_param(x, vars) {
                    Ok(p) => Ok(Block::Return { value: Some(p) }),
                    Err(e) => Err(e),
                }
            },
            None => Ok(Block::Return { value: None }),
        },
        SpecialType::RepeatForever | SpecialType::RepeatInf => match statements_thread(v, 0, vars) {
            Ok(body) => {
                proof {
                    crate::block::lemma_block_seq_view(&body);
                }
                Ok(Block::Forever { body })
            },
            Err(e) => Err(e),
        },
        SpecialType::IfElse => {
            let cond = match param_at(v, 0, vars) {
                Ok(c) => c,
                Err(e) => return Err(e),
            };
            let then_body = match statements_thread(v, 0, vars) {
                Ok(b) => b,
                Err(e) => return Err(e),
            };
            let else_body = match statements_thread(v, 1, vars) {
                Ok(b) => b,
                Err(e) => return Err(e),
            };
            proof {
                crate::block::lemma_block_seq_view(&then_body);
                crate::block::lemma_block_seq_view(&else_body);
            }
            Ok(Block::IfElse { cond, then_body, else_body })
        },
        _ => {
            let cond = match param_at(v, 0, vars) {
                Ok(c) => c,
                Err(e) => return Err(e),
            };
            let body = match statements_thread(v, 0, vars) {
                Ok(b) => b,
                Err(e) => return Err(e),
            };
            proof {
                crate::block::lemma_block_seq_view(&body);
            }
            if sp == SpecialType::RepeatBasic {
                Ok(Block::Repeat { times: cond, body })
            } else if sp == SpecialType::If || sp == SpecialType::AltIf {
                Ok(Block::If { cond, body })
            } else if let ParamBlock::Boolean(true) = cond {
                Ok(Block::Forever { body })
            } else {
                Ok(Block::While { cond, body })
            }
        },
    }
}

/// Function definition blocks (with or without a returned value).
fn function_from_value(v: &Json, sp: SpecialType, vars: &VarMap) -> (r: crate::error::Result<Block>)
    requires
        sp is FunctionCreate || sp is FunctionCreateValue,
    ensures
        agrees(r, dec_special(v@, sp, vars@), |b: Block| b@),
    decreases v@, 0int, 1int,
{
    let name = match str_of(param_ref(v, 0)) {
        Some(n) => n.to_owned(),
        None => return Err(parse_error("function_create name")),
    };
    let params = names_of(v);
    let mut body = match statements_thread(v, 0, vars) {
        Ok(b) => b,
        Err(e) => return Err(e),
    };
    if sp == SpecialType::FunctionCreateValue {
        if let Some(x) = param_ref(v, 3) {
            if !x.is_null() {
                proof {
                    lemma_param_smaller(v@, 3);
                }
                match value_to_param(x, vars) {
                    Ok(p) => {
                        let ghost before = body@;
                        body.push(Block::Return { value: Some(p) });
                        proof {
                            assert(crate::block::block_views(body@) =~= crate::block::block_views(before).push(
                                BlockV::Return(Some(p@)),
                            ));
                        }
                    },
                    Err(e) => return Err(e),
                }
            }
        }
    }
    proof {
        crate::block::lemma_block_seq_view(&body);
    }
    Ok(Block::FuncDef { name, params, body })
}

/// Looks and text-box blocks.
fn looks_from_value(v: &Json, sp: SpecialType, vars: &VarMap) -> (r: crate::error::Result<Block>)
    requires
        sp is Dialog || sp is DialogTime || sp is ChangeToSomeShape || sp is AddEffectAmount
            || sp is ChangeEffectAmount || sp is StretchScaleSize || sp is TextChangeEffect
            || sp is TextChangeFont,
    ensures
        agrees(r, dec_special(v@, sp, vars@), |b: Block| b@),
    decreases v@, 0int, 2int,
{
    match sp {
        SpecialType::Dialog | SpecialType::DialogTime => {
            let content = match param_at(v, 0, vars) {
                Ok(c) => c,
                Err(e) => return Err(e),
            };
            let mode = match str_of(param_ref(v, 1)) {
                Some(m) => if crate::text::str_is(m, "think") {
                    DialogMode::Think
                } else {
                    DialogMode::Say
                },
                None => DialogMode::Say,
            };
            if sp == SpecialType::Dialog {
                Ok(Block::Dialog { mode, content })
            } else {
                match param_at(v, 2, vars) {
                    Ok(time) => Ok(Block::DialogTime { mode, content, time }),
                    Err(e) => Err(e),
                }
            }
        },
        SpecialType::ChangeToSomeShape => {
            let picture = match param_ref(v, 0) {
                Some(x) => {
                    let named = match x.get("type") {
                        Some(Json::Str(k)) => crate::text::str_is(k.as_str(), "get_pictures"),
                        _ => false,
                    };
                    let inner = if named {
                        str_of(first_ref(x))
                    } else {
                        None
                    };
                    match inner {
                        Some(p) => p.to_owned(),
                        None => text_or(Some(x), ""),
                    }
                },
                None => "".to_owned(),
            };
            Ok(Block::ChangeToSomeShape { picture })
        },
        SpecialType::AddEffectAmount | SpecialType::ChangeEffectAmount => {
            let amount = match param_at(v, 1, vars) {
                Ok(a) => a,
                Err(e) => return Err(e),
            };
            let name = text_or(param_ref(v, 0), "color");
            let effect = match crate::block::names::str_to_effect(name.as_str()) {
                Some(e) => e,
                None => EffectType::Color,
            };
            if sp == SpecialType::AddEffectAmount {
                Ok(Block::AddEffectAmount { effect, amount })
            } else {
                Ok(Block::ChangeEffectAmount { effect, amount })
            }
        },
        SpecialType::StretchScaleSize => {
            let value = match param_at(v, 1, vars) {
                Ok(a) => a,
                Err(e) => return Err(e),
            };
            let d = text_or(param_ref(v, 0), "WIDTH");
            let dim = if crate::text::str_is(d.as_str(), "HEIGHT") {
                Dimension::Height
            } else {
                Dimension::Width
            };
            Ok(Block::StretchScaleSize { dim, value })
        },
        SpecialType::TextChangeEffect => {
            let ep = match param_at(v, 0, vars) {
                Ok(a) => a,
                Err(e) => return Err(e),
            };
            let mp = match param_at(v, 1, vars) {
                Ok(a) => a,
                Err(e) => return Err(e),
            };
            proof {
                reveal_strlit("on");
                reveal_strlit("off");
            }
            let effect = match &ep {
                ParamBlock::Text(name) => match crate::block::names::str_to_text_effect(name.as_str()) {
                    Some(e) => e,
                    None => {
                        let mut msg = "unknown text effect: ".to_owned();
                        crate::text::push_str(&mut msg, name.as_str());
                        return Err(Error::SyntaxError(msg));
                    },
                },
                _ => return Err(syntax_error("text_change_effect effect must be string")),
            };
            match &mp {
                ParamBlock::Text(m) => if crate::text::str_is(m.as_str(), "on") {
                    Ok(Block::TextChangeEffect { effect, mode: true })
                } else if crate::text::str_is(m.as_str(), "off") {
                    Ok(Block::TextChangeEffect { effect, mode: false })
                } else {
                    Err(syntax_error("text_change_effect mode must be on/off"))
                },
                _ => Err(syntax_error("text_change_effect mode must be on/off")),
            }
        },
        _ => match param_at(v, 0, vars) {
            Ok(ParamBlock::Text(font)) => Ok(Block::TextChangeFont { font }),
            Ok(_) => Err(syntax_error("text_change_font font must be string")),
            Err(e) => Err(e),
        },
    }
}

} // verus!
