//! From statements and expressions to blocks.
//!
//! A call to a known function name becomes its block: the arguments fill
//! the block's slots that take a value, in order (a variable or list slot
//! takes a variable name, a text slot a string literal). Any other call
//! becomes a call of a user function.

use vstd::prelude::*;

use crate::block::kinds::{
    all_kinds, all_kinds_vec, dsl_call_name, dsl_name, layout, layout_of, stmt_callable,
    stmt_callable_of, value_callable, value_callable_of, BasicKind, Slot,
};
use crate::block::names::{
    dim_named, dim_variant, effect_named, effect_variant, kind_of_name, math_op_named, qam_named,
    qam_variant, text_effect_named, text_effect_variant,
};
use crate::block::{
    block_views, param_views, slot_views, Block, BlockV, DialogMode, Dimension, EffectType,
    ParamBlock, ParamV, QamMethod, SlotV, SlotValue, TextEffect,
};
use crate::deparse::agrees;
use crate::error::{Error, ErrorKind};
use crate::ir::{expr_views, stmt_views, BinOp, Expr, ExprV, Stmt, StmtV, UnaryOp};
use crate::text::int_text;
use crate::var::VarKind;

verus! {

/// The first kind of `ks` whose source name is `name`.
pub open spec fn first_dsl(ks: Seq<BasicKind>, name: Seq<char>) -> Option<BasicKind>
    decreases ks.len(),
{
    if ks.len() == 0 {
        None
    } else if dsl_name(ks[0]) == name {
        Some(ks[0])
    } else {
        first_dsl(ks.drop_first(), name)
    }
}

/// The fixed-shape block a call named `name` stands for, if any.
pub open spec fn dsl_kind(name: Seq<char>) -> Option<BasicKind> {
    first_dsl(all_kinds(), name)
}

/// Entry's own timer and answer variables cannot be set or read as plain
/// variables.
pub open spec fn is_reserved_var(name: Seq<char>) -> bool {
    kind_of_name(name) == VarKind::Timer || kind_of_name(name) == VarKind::Answer
}

/// A dropdown argument: a string, or a path `Type::Variant` for the
/// dropdown's type `ty`.
pub open spec fn enum_arg<T>(
    e: ExprV,
    ty: Seq<char>,
    by_text: spec_fn(Seq<char>) -> Option<T>,
    by_variant: spec_fn(Seq<char>) -> Option<T>,
) -> Result<T, ErrorKind> {
    match e {
        ExprV::Str(s) => match by_text(s) {
            Some(x) => Ok(x),
            None => Err(ErrorKind::Syntax),
        },
        ExprV::Path(segs) => if segs.len() == 2 && segs[0] == ty {
            match by_variant(segs[1]) {
                Some(x) => Ok(x),
                None => Err(ErrorKind::Syntax),
            }
        } else {
            Err(ErrorKind::Syntax)
        },
        _ => Err(ErrorKind::Syntax),
    }
}

/// A graphic effect argument.
pub open spec fn effect_arg(e: ExprV) -> Result<EffectType, ErrorKind> {
    enum_arg(e, "EffectType"@, |s: Seq<char>| effect_named(s), |s: Seq<char>| effect_variant(s))
}

/// A text effect argument.
pub open spec fn text_effect_arg(e: ExprV) -> Result<TextEffect, ErrorKind> {
    enum_arg(e, "TextEffect"@, |s: Seq<char>| text_effect_named(s), |s: Seq<char>| text_effect_variant(s))
}

/// A dimension argument.
pub open spec fn dim_arg(e: ExprV) -> Result<Dimension, ErrorKind> {
    enum_arg(e, "Dimension"@, |s: Seq<char>| dim_named(s), |s: Seq<char>| dim_variant(s))
}

/// A quotient-or-remainder argument.
pub open spec fn qam_arg(e: ExprV) -> Result<QamMethod, ErrorKind> {
    enum_arg(e, "QamMethod"@, |s: Seq<char>| qam_named(s), |s: Seq<char>| qam_variant(s))
}

/// The block of a binary operator: comparison, logic or arithmetic.
pub open spec fn bin_block(op: BinOp, l: ParamV, r: ParamV) -> BlockV {
    match op {
        BinOp::Eq | BinOp::Ne | BinOp::Lt | BinOp::Le | BinOp::Gt | BinOp::Ge => BlockV::Compare(op, l, r),
        BinOp::And | BinOp::Or => BlockV::BoolOp(op, l, r),
        _ => BlockV::CalcBinOp(op, l, r),
    }
}

/// Number of slots of `slots` that take an argument.
pub open spec fn inputs(slots: Seq<Slot>) -> nat
    decreases slots.len(),
{
    if slots.len() == 0 {
        0
    } else {
        inputs(slots.drop_last()) + if slots.last() is Empty {
            0nat
        } else {
            1nat
        }
    }
}

/// A parameter value for an expression.
pub open spec fn low_expr(e: ExprV) -> Result<ParamV, ErrorKind>
    decreases e, 2int, 0int,
{
    match e {
        ExprV::Int(i) => Ok(ParamV::Number(int_number_text(i))),
        ExprV::Float(t) => Ok(ParamV::Number(t)),
        ExprV::Str(s) => Ok(ParamV::Text(s)),
        ExprV::Bool(b) => Ok(ParamV::Boolean(b)),
        ExprV::Var(n) => if is_reserved_var(n) {
            Err(ErrorKind::Unmapped)
        } else {
            Ok(ParamV::Variable(n))
        },
        ExprV::BinOp(op, l, r) => match low_expr(*l) {
            Err(k) => Err(k),
            Ok(lp) => match low_expr(*r) {
                Err(k) => Err(k),
                Ok(rp) => Ok(ParamV::Sub(Box::new(bin_block(op, lp, rp)))),
            },
        },
        ExprV::UnaryOp(op, x) => match low_expr(*x) {
            Err(k) => Err(k),
            Ok(p) => Ok(ParamV::Sub(Box::new(BlockV::UnaryOp(op, p)))),
        },
        ExprV::Call(name, _, args) => match low_value_call(name, args) {
            Err(k) => Err(k),
            Ok(b) => Ok(ParamV::Sub(Box::new(b))),
        },
        _ => Err(ErrorKind::Syntax),
    }
}

/// Parameter values for the first `n` expressions of `args`.
pub open spec fn low_exprs(args: Seq<ExprV>, n: nat) -> Result<Seq<ParamV>, ErrorKind>
    decreases args, 0int, n,
{
    if n == 0 || n > args.len() {
        Ok(seq![])
    } else {
        match low_exprs(args, (n - 1) as nat) {
            Err(k) => Err(k),
            Ok(prev) => match low_expr(args[n - 1]) {
                Err(k) => Err(k),
                Ok(p) => Ok(prev.push(p)),
            },
        }
    }
}

/// The first `n` slots of a block of kind `k` filled from `args`.
pub open spec fn low_slots(k: BasicKind, args: Seq<ExprV>, n: nat) -> Result<Seq<SlotV>, ErrorKind>
    decreases args, 0int, n,
{
    if n == 0 || n > layout(k).len() {
        Ok(seq![])
    } else {
        match low_slots(k, args, (n - 1) as nat) {
            Err(e) => Err(e),
            Ok(prev) => {
                let j = inputs(layout(k).take(n - 1)) as int;
                match layout(k)[n - 1] {
                    Slot::Empty => Ok(prev.push(SlotV::Empty)),
                    Slot::Param => if 0 <= j < args.len() {
                        match low_expr(args[j]) {
                            Err(e) => Err(e),
                            Ok(p) => Ok(prev.push(SlotV::Param(p))),
                        }
                    } else {
                        Err(ErrorKind::Syntax)
                    },
                    Slot::Var | Slot::List => if 0 <= j < args.len() {
                        match args[j] {
                            ExprV::Var(v) => Ok(prev.push(SlotV::Name(v))),
                            _ => Err(ErrorKind::Syntax),
                        }
                    } else {
                        Err(ErrorKind::Syntax)
                    },
                    _ => if 0 <= j < args.len() {
                        match args[j] {
                            ExprV::Str(s) => Ok(prev.push(SlotV::Name(s))),
                            _ => Err(ErrorKind::Syntax),
                        }
                    } else {
                        Err(ErrorKind::Syntax)
                    },
                }
            },
        }
    }
}

/// A fixed-shape block from a call: the arguments must fill exactly the
/// slots that take one.
pub open spec fn low_basic_call(k: BasicKind, args: Seq<ExprV>) -> Result<BlockV, ErrorKind>
    decreases args, 1int, 0int,
{
    if args.len() != inputs(layout(k)) {
        Err(ErrorKind::Syntax)
    } else {
        match low_slots(k, args, layout(k).len()) {
            Err(e) => Err(e),
            Ok(s) => Ok(BlockV::Basic(k, s)),
        }
    }
}

/// A speech or thought bubble from its arguments (text, then optional time).
pub open spec fn low_dialog(mode: DialogMode, args: Seq<ExprV>) -> Result<BlockV, ErrorKind>
    decreases args, 1int, 0int,
{
    if args.len() == 0 {
        Err(ErrorKind::Syntax)
    } else {
        match low_expr(args[0]) {
            Err(e) => Err(e),
            Ok(c) => if args.len() >= 2 {
                match low_expr(args[1]) {
                    Err(e) => Err(e),
                    Ok(t) => Ok(BlockV::DialogTime(mode, c, t)),
                }
            } else {
                Ok(BlockV::Dialog(mode, c))
            },
        }
    }
}

/// Calls that read the same as statements and as values.
pub open spec fn low_common_call(name: Seq<char>, args: Seq<ExprV>) -> Option<Result<BlockV, ErrorKind>>
    decreases args, 1int, 1int,
{
    if name == "calc_rand"@ {
        Some(
            if args.len() != 2 {
                Err(ErrorKind::Syntax)
            } else {
                match low_expr(args[0]) {
                    Err(e) => Err(e),
                    Ok(lo) => match low_expr(args[1]) {
                        Err(e) => Err(e),
                        Ok(hi) => Ok(BlockV::CalcRand(lo, hi)),
                    },
                }
            },
        )
    } else if name == "say"@ {
        Some(low_dialog(DialogMode::Say, args))
    } else if name == "think"@ {
        Some(low_dialog(DialogMode::Think, args))
    } else if name == "quotient_and_mod"@ {
        Some(
            if args.len() != 3 {
                Err(ErrorKind::Syntax)
            } else {
                match qam_arg(args[2]) {
                    Err(e) => Err(e),
                    Ok(m) => match low_expr(args[0]) {
                        Err(e) => Err(e),
                        Ok(a) => match low_expr(args[1]) {
                            Err(e) => Err(e),
                            Ok(b) => Ok(BlockV::QuotientAndMod(a, b, m)),
                        },
                    },
                }
            },
        )
    } else if math_op_named(name) is Some {
        Some(
            if args.len() == 0 {
                Err(ErrorKind::Syntax)
            } else {
                match low_expr(args[0]) {
                    Err(e) => Err(e),
                    Ok(x) => Ok(BlockV::CalcOperation(math_op_named(name).unwrap(), x)),
                }
            },
        )
    } else if name == "reach_something"@ {
        Some(
            if args.len() == 0 {
                Ok(BlockV::ReachSomeThing("self"@))
            } else {
                match args[0] {
                    ExprV::Str(s) => Ok(BlockV::ReachSomeThing(s)),
                    _ => Err(ErrorKind::Syntax),
                }
            },
        )
    } else {
        None
    }
}

/// A user function call.
pub open spec fn low_func_call(name: Seq<char>, args: Seq<ExprV>) -> Result<BlockV, ErrorKind>
    decreases args, 1int, 0int,
{
    match low_exprs(args, args.len()) {
        Err(e) => Err(e),
        Ok(ps) => Ok(BlockV::FuncCall(name, ps)),
    }
}

/// The block a call used as a value stands for.
pub open spec fn low_value_call(name: Seq<char>, args: Seq<ExprV>) -> Result<BlockV, ErrorKind>
    decreases args, 1int, 2int,
{
    match low_common_call(name, args) {
        Some(r) => r,
        None => match dsl_kind(name) {
            Some(k) => if value_callable(k) {
                low_basic_call(k, args)
            } else {
                low_func_call(name, args)
            },
            None => low_func_call(name, args),
        },
    }
}

/// The text of a string-literal first argument, or the empty text.
pub open spec fn first_text(args: Seq<ExprV>) -> Seq<char> {
    if args.len() > 0 {
        match args[0] {
            ExprV::Str(s) => s,
            _ => ""@,
        }
    } else {
        ""@
    }
}

/// Calls of statements that have a block of their own shape, or a fixed
/// text.
pub open spec fn low_special_stmt_call(name: Seq<char>, args: Seq<ExprV>) -> Option<Result<BlockV, ErrorKind>>
    decreases args, 1int, 1int,
{
    if name == "send_message"@ {
        Some(Ok(BlockV::Basic(BasicKind::MessageCast, seq![SlotV::Name(first_text(args)), SlotV::Empty])))
    } else if name == "wait_message"@ {
        Some(Ok(BlockV::Basic(BasicKind::MessageCastWait, seq![SlotV::Name(first_text(args)), SlotV::Empty])))
    } else if name == "start_scene"@ {
        Some(Ok(BlockV::Basic(BasicKind::StartScene, seq![SlotV::Name(first_text(args)), SlotV::Empty])))
    } else if name == "start_next_scene"@ {
        Some(Ok(BlockV::Basic(BasicKind::StartNeighborScene, seq![SlotV::Name("next"@), SlotV::Empty])))
    } else if name == "start_prev_scene"@ {
        Some(Ok(BlockV::Basic(BasicKind::StartNeighborScene, seq![SlotV::Name("prev"@), SlotV::Empty])))
    } else if name == "show_timer"@ {
        Some(Ok(BlockV::SetVisibleProjectTimer(true)))
    } else if name == "hide_timer"@ {
        Some(Ok(BlockV::SetVisibleProjectTimer(false)))
    } else if name == "start_timer"@ {
        Some(Ok(BlockV::ChooseProjectTimerAction("start"@)))
    } else if name == "stop_timer"@ {
        Some(Ok(BlockV::ChooseProjectTimerAction("stop"@)))
    } else if name == "reset_timer"@ {
        Some(Ok(BlockV::ChooseProjectTimerAction("reset"@)))
    } else if name == "show_answer"@ {
        Some(Ok(BlockV::SetVisibleAnswer(true)))
    } else if name == "hide_answer"@ {
        Some(Ok(BlockV::SetVisibleAnswer(false)))
    } else if name == "change_to_some_shape"@ {
        Some(
            if args.len() == 0 {
                Err(ErrorKind::Syntax)
            } else {
                match args[0] {
                    ExprV::Str(s) => Ok(BlockV::ChangeToSomeShape(s)),
                    _ => Err(ErrorKind::Syntax),
                }
            },
        )
    } else if name == "add_effect_amount"@ || name == "change_effect_amount"@ {
        Some(
            if args.len() != 2 {
                Err(ErrorKind::Syntax)
            } else {
                match effect_arg(args[0]) {
                    Err(e) => Err(e),
                    Ok(fx) => match low_expr(args[1]) {
                        Err(e) => Err(e),
                        Ok(a) => if name == "add_effect_amount"@ {
                            Ok(BlockV::AddEffectAmount(fx, a))
                        } else {
                            Ok(BlockV::ChangeEffectAmount(fx, a))
                        },
                    },
                }
            },
        )
    } else if name == "stretch_scale_size"@ {
        Some(
            if args.len() != 2 {
                Err(ErrorKind::Syntax)
            } else {
                match dim_arg(args[0]) {
                    Err(e) => Err(e),
                    Ok(d) => match low_expr(args[1]) {
                        Err(e) => Err(e),
                        Ok(a) => Ok(BlockV::StretchScaleSize(d, a)),
                    },
                }
            },
        )
    } else if name == "text_change_effect"@ {
        Some(
            if args.len() != 2 {
                Err(ErrorKind::Syntax)
            } else {
                match text_effect_arg(args[0]) {
                    Err(e) => Err(e),
                    Ok(fx) => match args[1] {
                        ExprV::Bool(on) => Ok(BlockV::TextChangeEffect(fx, on)),
                        _ => Err(ErrorKind::Syntax),
                    },
                }
            },
        )
    } else if name == "text_change_font"@ {
        Some(
            if args.len() != 1 {
                Err(ErrorKind::Syntax)
            } else {
                match args[0] {
                    ExprV::Str(f) => Ok(BlockV::TextChangeFont(f)),
                    _ => Err(ErrorKind::Syntax),
                }
            },
        )
    } else {
        None
    }
}

/// The block a call used as a statement stands for.
pub open spec fn low_stmt_call(name: Seq<char>, args: Seq<ExprV>) -> Result<BlockV, ErrorKind>
    decreases args, 1int, 2int,
{
    match low_special_stmt_call(name, args) {
        Some(r) => r,
        None => match low_common_call(name, args) {
            Some(r) => r,
            None => match dsl_kind(name) {
                Some(k) => if stmt_callable(k) {
                    low_basic_call(k, args)
                } else {
                    low_func_call(name, args)
                },
                None => low_func_call(name, args),
            },
        },
    }
}

/// Setting (or adding to) a variable.
pub open spec fn low_assign(k: BasicKind, name: Seq<char>, e: ExprV) -> Result<BlockV, ErrorKind>
    decreases e, 3int, 0int,
{
    if is_reserved_var(name) {
        Err(ErrorKind::Unmapped)
    } else {
        match low_expr(e) {
            Err(x) => Err(x),
            Ok(p) => Ok(BlockV::Basic(k, seq![SlotV::Name(name), SlotV::Param(p), SlotV::Empty])),
        }
    }
}

/// The blocks of the first `n` statements of `body`.
pub open spec fn low_body(body: Seq<StmtV>, n: nat) -> Result<Seq<BlockV>, ErrorKind>
    decreases body, 0int, n,
{
    if n == 0 || n > body.len() {
        Ok(seq![])
    } else {
        match low_body(body, (n - 1) as nat) {
            Err(e) => Err(e),
            Ok(prev) => match low_stmt(body[n - 1]) {
                Err(e) => Err(e),
                Ok(b) => Ok(prev.push(b)),
            },
        }
    }
}

/// The block of a statement.
pub open spec fn low_stmt(s: StmtV) -> Result<BlockV, ErrorKind>
    decreases s, 4int, 0int,
{
    match s {
        StmtV::VarDecl(name, e, _, _) => low_assign(BasicKind::SetVar, name, e),
        StmtV::SetVar(name, _, e) => low_assign(BasicKind::SetVar, name, e),
        StmtV::ChangeVariable(name, _, e) => low_assign(BasicKind::ChangeVar, name, e),
        StmtV::Dialog(e, m) => match low_expr(e) {
            Err(x) => Err(x),
            Ok(p) => Ok(BlockV::Dialog(m, p)),
        },
        StmtV::StopAll => Ok(BlockV::Basic(BasicKind::StopAll, seq![SlotV::Empty])),
        StmtV::FuncDef(name, params, _, body) => match low_body(body, body.len()) {
            Err(x) => Err(x),
            Ok(bs) => Ok(BlockV::FuncDef(name, params.map_values(|p: (Seq<char>, crate::ir::ParamKind)| p.0), bs)),
        },
        StmtV::Expr(e) => match e {
            ExprV::Call(name, _, args) => low_stmt_call(name, args),
            _ => Err(ErrorKind::Syntax),
        },
        StmtV::If(c, tb, eb) => match low_expr(c) {
            Err(x) => Err(x),
            Ok(cp) => match low_body(tb, tb.len()) {
                Err(x) => Err(x),
                Ok(t) => match low_body(eb, eb.len()) {
                    Err(x) => Err(x),
                    Ok(e2) => if e2.len() == 0 {
                        Ok(BlockV::If(cp, t))
                    } else {
                        Ok(BlockV::IfElse(cp, t, e2))
                    },
                },
            },
        },
        StmtV::While(c, body) => match low_expr(c) {
            Err(x) => Err(x),
            Ok(cp) => match low_body(body, body.len()) {
                Err(x) => Err(x),
                Ok(bs) => Ok(BlockV::While(cp, bs)),
            },
        },
        StmtV::Repeat(t, body) => match low_expr(t) {
            Err(x) => Err(x),
            Ok(tp) => match low_body(body, body.len()) {
                Err(x) => Err(x),
                Ok(bs) => Ok(BlockV::Repeat(tp, bs)),
            },
        },
        StmtV::Loop(body) => match low_body(body, body.len()) {
            Err(x) => Err(x),
            Ok(bs) => Ok(BlockV::Forever(bs)),
        },
        StmtV::For(var, iter, body) => match iter {
            ExprV::Range(start, end) => match low_expr(*start) {
                Err(x) => Err(x),
                Ok(sp) => match low_expr(*end) {
                    Err(x) => Err(x),
                    Ok(ep) => match low_body(body, body.len()) {
                        Err(x) => Err(x),
                        Ok(bs) => Ok(
                            BlockV::Repeat(
                                ParamV::Sub(Box::new(BlockV::CalcBinOp(BinOp::Sub, ep, sp))),
                                seq![BlockV::Basic(BasicKind::SetVar, seq![SlotV::Name(var), SlotV::Param(sp), SlotV::Empty])]
                                    + bs + seq![
                                    BlockV::Basic(
                                        BasicKind::ChangeVar,
                                        seq![SlotV::Name(var), SlotV::Param(ParamV::Number(int_number_text(1))), SlotV::Empty],
                                    ),
                                ],
                            ),
                        ),
                    },
                },
            },
            _ => Err(ErrorKind::Syntax),
        },
        StmtV::Return(e) => match low_expr(e) {
            Err(x) => Err(x),
            Ok(p) => Ok(BlockV::Return(Some(p))),
        },
        StmtV::Break => Ok(BlockV::Basic(BasicKind::Break, seq![])),
        StmtV::Continue => Ok(BlockV::Basic(BasicKind::Continue, seq![])),
    }
}


// ---------------------------------------------------------------------
// Executable lowering.
// ---------------------------------------------------------------------

proof fn lemma_first_dsl_skip(ks: Seq<BasicKind>, name: Seq<char>, i: int)
    requires
        0 <= i <= ks.len(),
        forall|j: int| 0 <= j < i ==> dsl_name(ks[j]) != name,
    ensures
        first_dsl(ks, name) == first_dsl(ks.skip(i), name),
    decreases i,
{
    if i > 0 {
        lemma_first_dsl_skip(ks.drop_first(), name, i - 1);
        assert(ks.drop_first().skip(i - 1) =~= ks.skip(i));
    } else {
        assert(ks.skip(0) =~= ks);
    }
}

/// The fixed-shape block kind a call named `name` stands for.
pub fn find_dsl_kind(name: &str) -> (r: Option<BasicKind>)
    ensures
        r == dsl_kind(name@),
{
    let ks = all_kinds_vec();
    let mut i: usize = 0;
    while i < ks.len()
        invariant
            i <= ks.len(),
            ks@ == all_kinds(),
            forall|j: int| 0 <= j < i ==> dsl_name(ks@[j]) != name@,
        decreases ks.len() - i,
    {
        if crate::text::str_is(dsl_call_name(ks[i]), name) {
            proof {
                lemma_first_dsl_skip(ks@, name@, i as int);
                assert(ks@.skip(i as int)[0] == ks@[i as int]);
            }
            return Some(ks[i]);
        }
        i = i + 1;
    }
    proof {
        lemma_first_dsl_skip(ks@, name@, i as int);
        assert(ks@.skip(i as int) =~= Seq::<BasicKind>::empty());
    }
    None
}

fn syntax(msg: &str) -> (e: Error)
    ensures
        e.kind() == ErrorKind::Syntax,
{
    Error::SyntaxError(msg.to_owned())
}

/// The two segments of a path expression `A::B`.
fn path_pair(e: &Expr) -> (r: Option<(&str, &str)>)
    ensures
        r matches Some((a, b)) ==> e@ matches ExprV::Path(segs) && segs.len() == 2 && segs[0] == a@ && segs[1] == b@,
        r is None ==> !(e@ matches ExprV::Path(segs) && segs.len() == 2),
{
    match e {
        Expr::Path(segs) => {
            if segs.len() == 2 {
                Some((segs[0].as_str(), segs[1].as_str()))
            } else {
                None
            }
        },
        _ => None,
    }
}

fn effect_of(e: &Expr) -> (r: crate::error::Result<EffectType>)
    ensures
        agrees(r, effect_arg(e@), |x: EffectType| x),
{
    if let Expr::Str(s) = e {
        return match crate::block::names::str_to_effect(s.as_str()) {
            Some(x) => Ok(x),
            None => Err(syntax("unknown EffectType value")),
        };
    }
    match path_pair(e) {
        Some((ty, v)) => if crate::text::str_is(ty, "EffectType") {
            match crate::block::names::effect_from_variant(v) {
                Some(x) => Ok(x),
                None => Err(syntax("unknown EffectType variant")),
            }
        } else {
            Err(syntax("effect must be string or EffectType variant"))
        },
        None => Err(syntax("effect must be string or EffectType variant")),
    }
}

fn text_effect_of(e: &Expr) -> (r: crate::error::Result<TextEffect>)
    ensures
        agrees(r, text_effect_arg(e@), |x: TextEffect| x),
{
    if let Expr::Str(s) = e {
        return match crate::block::names::str_to_text_effect(s.as_str()) {
            Some(x) => Ok(x),
            None => Err(syntax("unknown TextEffect value")),
        };
    }
    match path_pair(e) {
        Some((ty, v)) => if crate::text::str_is(ty, "TextEffect") {
            match crate::block::names::text_effect_from_variant(v) {
                Some(x) => Ok(x),
                None => Err(syntax("unknown TextEffect variant")),
            }
        } else {
            Err(syntax("effect must be string or TextEffect variant"))
        },
        None => Err(syntax("effect must be string or TextEffect variant")),
    }
}

fn dim_of(e: &Expr) -> (r: crate::error::Result<Dimension>)
    ensures
        agrees(r, dim_arg(e@), |x: Dimension| x),
{
    if let Expr::Str(s) = e {
        return match crate::block::names::str_to_dim(s.as_str()) {
            Some(x) => Ok(x),
            None => Err(syntax("unknown Dimension value")),
        };
    }
    match path_pair(e) {
        Some((ty, v)) => if crate::text::str_is(ty, "Dimension") {
            match crate::block::names::dim_from_variant(v) {
                Some(x) => Ok(x),
                None => Err(syntax("unknown Dimension variant")),
            }
        } else {
            Err(syntax("dimension must be string or Dimension variant"))
        },
        None => Err(syntax("dimension must be string or Dimension variant")),
    }
}

fn qam_of(e: &Expr) -> (r: crate::error::Result<QamMethod>)
    ensures
        agrees(r, qam_arg(e@), |x: QamMethod| x),
{
    if let Expr::Str(s) = e {
        return match crate::block::names::str_to_qam(s.as_str()) {
            Some(x) => Ok(x),
            None => Err(syntax("unknown QamMethod value")),
        };
    }
    match path_pair(e) {
        Some((ty, v)) => if crate::text::str_is(ty, "QamMethod") {
            match crate::block::names::qam_from_variant(v) {
                Some(x) => Ok(x),
                None => Err(syntax("unknown QamMethod variant")),
            }
        } else {
            Err(syntax("mode must be string or QamMethod variant"))
        },
        None => Err(syntax("mode must be string or QamMethod variant")),
    }
}

fn sub_param(b: Block) -> (r: ParamBlock)
    ensures
        r@ == ParamV::Sub(Box::new(b@)),
{
    ParamBlock::Sub(Box::new(b))
}

/// The number text of an integer as a block parameter: Entry numbers are
/// floating-point, so a whole number is written with `.0` (as serde_json
/// writes a whole floating-point value below 10^16). Beyond that magnitude
/// the integer's own digits are kept.
pub open spec fn int_number_text(i: int) -> Seq<char> {
    if -10000000000000000 < i < 10000000000000000 {
        int_text(i) + ".0"@
    } else {
        int_text(i)
    }
}

fn int_number(i: i64) -> (r: String)
    ensures
        r@ == int_number_text(i as int),
{
    let mut s = crate::text::i64_string(i);
    if -10000000000000000 < i && i < 10000000000000000 {
        crate::text::push_str(&mut s, ".0");
    }
    s
}

/// A parameter value for an expression. A read of Entry's timer or answer
/// variable, and a path, range or bare function name, have no block.
pub fn from_expr(expr: &Expr) -> (r: crate::error::Result<ParamBlock>)
    ensures
        agrees(r, low_expr(expr@), |p: ParamBlock| p@),
    decreases expr@, 2int, 0int,
{
    match expr {
        Expr::Int(i) => Ok(ParamBlock::Number(int_number(*i))),
        Expr::Float(t) => Ok(ParamBlock::Number(t.clone())),
        Expr::Str(s) => Ok(ParamBlock::Text(s.clone())),
        Expr::Bool(b) => Ok(ParamBlock::Boolean(*b)),
        Expr::Var(n) => {
            let k = crate::block::names::kind_for(n.as_str());
            if k == VarKind::Timer || k == VarKind::Answer {
                let mut msg = n.clone();
                crate::text::push_str(&mut msg, " read needs dedicated block");
                Err(Error::UnmappedBlock(msg))
            } else {
                Ok(ParamBlock::Variable(n.clone()))
            }
        },
        Expr::BinOp(op, l, r) => {
            let lp = match from_expr(l) {
                Ok(x) => x,
                Err(e) => return Err(e),
            };
            let rp = match from_expr(r) {
                Ok(x) => x,
                Err(e) => return Err(e),
            };
            let b = match op {
                BinOp::Eq | BinOp::Ne | BinOp::Lt | BinOp::Le | BinOp::Gt | BinOp::Ge => Block::Compare {
                    op: *op,
                    lhs: lp,
                    rhs: rp,
                },
                BinOp::And | BinOp::Or => Block::BoolOp { op: *op, lhs: lp, rhs: rp },
                _ => Block::CalcBinOp { op: *op, lhs: lp, rhs: rp },
            };
            Ok(sub_param(b))
        },
        Expr::UnaryOp(op, x) => match from_expr(x) {
            Ok(p) => Ok(sub_param(Block::UnaryOp { op: *op, expr: p })),
            Err(e) => Err(e),
        },
        Expr::Call(f, args) => {
            proof {
                crate::ir::lemma_call_view(*f, *args);
                let c = expr@;
                assert(decreases_to!(c => c->Call_2));
            }
            match value_call(f.name.as_str(), args) {
                Ok(b) => Ok(sub_param(b)),
                Err(e) => Err(e),
            }
        },
        Expr::Path(_) => Err(syntax("qualified path expr")),
        Expr::Func(_) => Err(syntax("bare func ref")),
        Expr::Range(..) => Err(syntax("range expr")),
    }
}

/// Parameter values for each expression of `args`, left to right.
fn from_exprs(args: &Vec<Expr>) -> (r: crate::error::Result<Vec<ParamBlock>>)
    ensures
        agrees(r, low_exprs(expr_views(args@), args@.len()), |v: Vec<ParamBlock>| param_views(v@)),
    decreases expr_views(args@), 0int, args@.len(),
{
    let ghost av = expr_views(args@);
    let mut out: Vec<ParamBlock> = Vec::new();
    let mut i: usize = 0;
    proof {
        assert(param_views(out@) =~= Seq::<ParamV>::empty());
    }
    while i < args.len()
        invariant
            i <= args.len(),
            av == expr_views(args@),
            low_exprs(av, i as nat) == Ok::<Seq<ParamV>, ErrorKind>(param_views(out@)),
        decreases args.len() - i,
    {
        proof {
            assert(av[i as int] == args@[i as int]@);
            assert(decreases_to!(av => av[i as int]));
        }
        match from_expr(&args[i]) {
            Ok(p) => {
                let ghost before = out@;
                out.push(p);
                proof {
                    assert(param_views(out@) =~= param_views(before).push(p@));
                }
            },
            Err(e) => {
                proof {
                    lemma_exprs_err(av, (i + 1) as nat, av.len());
                }
                return Err(e);
            },
        }
        i = i + 1;
    }
    Ok(out)
}

proof fn lemma_exprs_err(args: Seq<ExprV>, i: nat, n: nat)
    requires
        i <= n <= args.len(),
        low_exprs(args, i) is Err,
    ensures
        low_exprs(args, n) == low_exprs(args, i),
    decreases n,
{
    if n > i {
        lemma_exprs_err(args, i, (n - 1) as nat);
    }
}

proof fn lemma_slots_err(k: BasicKind, args: Seq<ExprV>, i: nat, n: nat)
    requires
        i <= n <= layout(k).len(),
        low_slots(k, args, i) is Err,
    ensures
        low_slots(k, args, n) == low_slots(k, args, i),
    decreases n,
{
    if n > i {
        lemma_slots_err(k, args, i, (n - 1) as nat);
    }
}

proof fn lemma_inputs_step(s: Seq<Slot>, n: int)
    requires
        0 < n <= s.len(),
    ensures
        inputs(s.take(n)) == inputs(s.take(n - 1)) + if s[n - 1] is Empty {
            0nat
        } else {
            1nat
        },
        inputs(s.take(n)) >= inputs(s.take(n - 1)),
{
    assert(s.take(n).drop_last() =~= s.take(n - 1));
}

proof fn lemma_inputs_bound(s: Seq<Slot>, n: int)
    requires
        0 <= n <= s.len(),
    ensures
        inputs(s.take(n)) <= inputs(s),
    decreases s.len() - n,
{
    if n < s.len() {
        lemma_inputs_step(s, n + 1);
        lemma_inputs_bound(s, n + 1);
    } else {
        assert(s.take(n) =~= s);
    }
}

/// A fixed-shape block of kind `k` from a call's arguments.
fn basic_call(k: BasicKind, args: &Vec<Expr>) -> (r: crate::error::Result<Block>)
    ensures
        agrees(r, low_basic_call(k, expr_views(args@)), |b: Block| b@),
    decreases expr_views(args@), 1int, 0int,
{
    let ghost av = expr_views(args@);
    let lay = layout_of(k);
    let mut need: usize = 0;
    let mut i: usize = 0;
    while i < lay.len()
        invariant
            i <= lay.len(),
            lay@ == layout(k),
            need == inputs(layout(k).take(i as int)),
            need <= i,
        decreases lay.len() - i,
    {
        proof {
            lemma_inputs_step(layout(k), i + 1);
        }
        if lay[i] != Slot::Empty {
            need = need + 1;
        }
        i = i + 1;
    }
    proof {
        assert(layout(k).take(lay.len() as int) =~= layout(k));
    }
    if args.len() != need {
        let mut msg = dsl_call_name(k).to_owned();
        crate::text::push_str(&mut msg, " needs ");
        crate::text::push_str(&mut msg, crate::text::usize_string(need).as_str());
        crate::text::push_str(&mut msg, " args");
        return Err(Error::SyntaxError(msg));
    }
    let mut out: Vec<SlotValue> = Vec::new();
    let mut j: usize = 0;
    i = 0;
    proof {
        assert(slot_views(out@) =~= Seq::<SlotV>::empty());
    }
    while i < lay.len()
        invariant
            i <= lay.len(),
            lay@ == layout(k),
            av == expr_views(args@),
            args@.len() == inputs(layout(k)),
            j == inputs(layout(k).take(i as int)),
            low_slots(k, av, i as nat) == Ok::<Seq<SlotV>, ErrorKind>(slot_views(out@)),
        decreases lay.len() - i,
    {
        proof {
            lemma_inputs_step(layout(k), i + 1);
            lemma_inputs_bound(layout(k), i + 1);
        }
        let ghost before = out@;
        let slot = lay[i];
        if slot == Slot::Empty {
            out.push(SlotValue::Empty);
        } else {
            proof {
                assert(j < args@.len());
                assert(j + 1 <= args@.len());
                assert(av[j as int] == args@[j as int]@);
                assert(decreases_to!(av => av[j as int]));
            }
            let a = &args[j];
            match slot {
                Slot::Param => match from_expr(a) {
                    Ok(p) => out.push(SlotValue::Param(p)),
                    Err(e) => {
                        proof {
                            lemma_slots_err(k, av, (i + 1) as nat, layout(k).len());
                        }
                        return Err(e);
                    },
                },
                Slot::Var | Slot::List => match a {
                    Expr::Var(v) => out.push(SlotValue::Name(v.clone())),
                    _ => {
                        proof {
                            lemma_slots_err(k, av, (i + 1) as nat, layout(k).len());
                        }
                        return Err(syntax("argument must be a variable"));
                    },
                },
                _ => match a {
                    Expr::Str(t) => out.push(SlotValue::Name(t.clone())),
                    _ => {
                        proof {
                            lemma_slots_err(k, av, (i + 1) as nat, layout(k).len());
                        }
                        return Err(syntax("argument must be a string"));
                    },
                },
            }
            assert(j < args.len());
            j = j + 1;
        }
        proof {
            assert(slot_views(out@) =~= slot_views(before).push(out@.last()@));
        }
        i = i + 1;
    }
    proof {
        crate::block::lemma_slot_seq_view(&out);
    }
    Ok(Block::Basic { kind: k, slots: out })
}


/// Argument `i` of a call, by reference, with its place in the measure.
proof fn lemma_arg_smaller(args: Seq<Expr>, i: int)
    requires
        0 <= i < args.len(),
    ensures
        expr_views(args)[i] == args[i]@,
        decreases_to!(expr_views(args) => expr_views(args)[i]),
{
}

/// A speech or thought bubble from a call's arguments.
fn dialog_call(mode: DialogMode, args: &Vec<Expr>) -> (r: crate::error::Result<Block>)
    ensures
        agrees(r, low_dialog(mode, expr_views(args@)), |b: Block| b@),
    decreases expr_views(args@), 1int, 0int,
{
    if args.len() == 0 {
        return Err(syntax("say/think needs arg"));
    }
    proof {
        lemma_arg_smaller(args@, 0);
    }
    let content = match from_expr(&args[0]) {
        Ok(c) => c,
        Err(e) => return Err(e),
    };
    if args.len() >= 2 {
        proof {
            lemma_arg_smaller(args@, 1);
        }
        match from_expr(&args[1]) {
            Ok(time) => Ok(Block::DialogTime { mode, content, time }),
            Err(e) => Err(e),
        }
    } else {
        Ok(Block::Dialog { mode, content })
    }
}

/// Calls that read the same as statements and as values.
fn common_call(name: &str, args: &Vec<Expr>) -> (r: Option<crate::error::Result<Block>>)
    ensures
        r matches Some(x) ==> low_common_call(name@, expr_views(args@)) matches Some(y) && agrees(x, y, |b: Block| b@),
        r is None ==> low_common_call(name@, expr_views(args@)) is None,
    decreases expr_views(args@), 1int, 1int,
{
    proof {
        reveal_strlit("calc_rand");
        reveal_strlit("say");
        reveal_strlit("think");
        reveal_strlit("quotient_and_mod");
        reveal_strlit("reach_something");
    }
    let is = |x: &str| -> (b: bool)
        ensures
            b == (name@ == x@),
        { crate::text::str_is(name, x) };
    if is("calc_rand") {
        if args.len() != 2 {
            return Some(Err(syntax("calc_rand needs 2 args")));
        }
        proof {
            lemma_arg_smaller(args@, 0);
            lemma_arg_smaller(args@, 1);
        }
        let min = match from_expr(&args[0]) {
            Ok(x) => x,
            Err(e) => return Some(Err(e)),
        };
        return Some(
            match from_expr(&args[1]) {
                Ok(max) => Ok(Block::CalcRand { min, max }),
                Err(e) => Err(e),
            },
        );
    }
    if is("say") {
        return Some(dialog_call(DialogMode::Say, args));
    }
    if is("think") {
        return Some(dialog_call(DialogMode::Think, args));
    }
    if is("quotient_and_mod") {
        if args.len() != 3 {
            return Some(Err(syntax("quotient_and_mod needs 3 args")));
        }
        proof {
            lemma_arg_smaller(args@, 0);
            lemma_arg_smaller(args@, 1);
            lemma_arg_smaller(args@, 2);
        }
        let mode = match qam_of(&args[2]) {
            Ok(m) => m,
            Err(e) => return Some(Err(e)),
        };
        let a = match from_expr(&args[0]) {
            Ok(x) => x,
            Err(e) => return Some(Err(e)),
        };
        return Some(
            match from_expr(&args[1]) {
                Ok(b) => Ok(Block::QuotientAndMod { a, b, mode }),
                Err(e) => Err(e),
            },
        );
    }
    if let Some(op) = crate::block::names::calc_op_from_name(name) {
        if args.len() == 0 {
            let mut msg = name.to_owned();
            crate::text::push_str(&mut msg, " needs arg");
            return Some(Err(Error::SyntaxError(msg)));
        }
        proof {
            lemma_arg_smaller(args@, 0);
        }
        return Some(
            match from_expr(&args[0]) {
                Ok(expr) => Ok(Block::CalcOperation { op, expr }),
                Err(e) => Err(e),
            },
        );
    }
    if is("reach_something") {
        if args.len() == 0 {
            return Some(Ok(Block::ReachSomeThing { target: "self".to_owned() }));
        }
        return Some(
            match &args[0] {
                Expr::Str(t) => Ok(Block::ReachSomeThing { target: t.clone() }),
                _ => Err(syntax("reach_something arg must be string")),
            },
        );
    }
    None
}

/// A call of a user function.
fn func_call(name: &str, args: &Vec<Expr>) -> (r: crate::error::Result<Block>)
    ensures
        agrees(r, low_func_call(name@, expr_views(args@)), |b: Block| b@),
    decreases expr_views(args@), 1int, 0int,
{
    match from_exprs(args) {
        Ok(ps) => {
            proof {
                crate::block::lemma_param_seq_view(&ps);
            }
            Ok(Block::FuncCall { name: name.to_owned(), args: ps })
        },
        Err(e) => Err(e),
    }
}

/// The block a call used as a value stands for.
fn value_call(name: &str, args: &Vec<Expr>) -> (r: crate::error::Result<Block>)
    ensures
        agrees(r, low_value_call(name@, expr_views(args@)), |b: Block| b@),
    decreases expr_views(args@), 1int, 2int,
{
    if let Some(r) = common_call(name, args) {
        return r;
    }
    match find_dsl_kind(name) {
        Some(k) => if value_callable_of(k) {
            basic_call(k, args)
        } else {
            func_call(name, args)
        },
        None => func_call(name, args),
    }
}

fn first_text_of(args: &Vec<Expr>) -> (r: String)
    ensures
        r@ == first_text(expr_views(args@)),
{
    if args.len() > 0 {
        match &args[0] {
            Expr::Str(s) => s.clone(),
            _ => "".to_owned(),
        }
    } else {
        "".to_owned()
    }
}

fn named_slots(a: String, b: SlotValue) -> (r: Vec<SlotValue>)
    ensures
        slot_views(r@) == seq![SlotV::Name(a@), b@],
{
    let ghost av = a@;
    let ghost bv = b@;
    let v = vec![SlotValue::Name(a), b];
    proof {
        assert(slot_views(v@) =~= seq![SlotV::Name(av), bv]);
    }
    v
}

fn basic_of(kind: BasicKind, slots: Vec<SlotValue>) -> (r: Block)
    ensures
        r@ == BlockV::Basic(kind, slot_views(slots@)),
{
    proof {
        crate::block::lemma_slot_seq_view(&slots);
    }
    Block::Basic { kind, slots }
}

/// Statement calls with a block of their own shape or a fixed text.
fn special_stmt_call(name: &str, args: &Vec<Expr>) -> (r: Option<crate::error::Result<Block>>)
    ensures
        r matches Some(x) ==> low_special_stmt_call(name@, expr_views(args@)) matches Some(y) && agrees(x, y, |b: Block| b@),
        r is None ==> low_special_stmt_call(name@, expr_views(args@)) is None,
    decreases expr_views(args@), 1int, 1int,
{
    proof {
        reveal_strlit("send_message");
        reveal_strlit("wait_message");
        reveal_strlit("start_scene");
        reveal_strlit("start_next_scene");
        reveal_strlit("start_prev_scene");
        reveal_strlit("show_timer");
        reveal_strlit("hide_timer");
        reveal_strlit("start_timer");
        reveal_strlit("stop_timer");
        reveal_strlit("reset_timer");
        reveal_strlit("show_answer");
        reveal_strlit("hide_answer");
        reveal_strlit("change_to_some_shape");
        reveal_strlit("add_effect_amount");
        reveal_strlit("change_effect_amount");
        reveal_strlit("stretch_scale_size");
        reveal_strlit("text_change_effect");
        reveal_strlit("text_change_font");
    }
    let is = |x: &str| -> (b: bool)
        ensures
            b == (name@ == x@),
        { crate::text::str_is(name, x) };
    if is("send_message") {
        return Some(Ok(basic_of(BasicKind::MessageCast, named_slots(first_text_of(args), SlotValue::Empty))));
    }
    if is("wait_message") {
        return Some(Ok(basic_of(BasicKind::MessageCastWait, named_slots(first_text_of(args), SlotValue::Empty))));
    }
    if is("start_scene") {
        return Some(Ok(basic_of(BasicKind::StartScene, named_slots(first_text_of(args), SlotValue::Empty))));
    }
    if is("start_next_scene") {
        return Some(Ok(basic_of(BasicKind::StartNeighborScene, named_slots("next".to_owned(), SlotValue::Empty))));
    }
    if is("start_prev_scene") {
        return Some(Ok(basic_of(BasicKind::StartNeighborScene, named_slots("prev".to_owned(), SlotValue::Empty))));
    }
    if is("show_timer") {
        return Some(Ok(Block::SetVisibleProjectTimer { value: true }));
    }
    if is("hide_timer") {
        return Some(Ok(Block::SetVisibleProjectTimer { value: false }));
    }
    if is("start_timer") {
        return Some(Ok(Block::ChooseProjectTimerAction { action: "start".to_owned() }));
    }
    if is("stop_timer") {
        return Some(Ok(Block::ChooseProjectTimerAction { action: "stop".to_owned() }));
    }
    if is("reset_timer") {
        return Some(Ok(Block::ChooseProjectTimerAction { action: "reset".to_owned() }));
    }
    if is("show_answer") {
        return Some(Ok(Block::SetVisibleAnswer { value: true }));
    }
    if is("hide_answer") {
        return Some(Ok(Block::SetVisibleAnswer { value: false }));
    }
    if is("change_to_some_shape") {
        if args.len() == 0 {
            return Some(Err(syntax("change_to_some_shape needs arg")));
        }
        return Some(
            match &args[0] {
                Expr::Str(t) => Ok(Block::ChangeToSomeShape { picture: t.clone() }),
                _ => Err(syntax("change_to_some_shape arg must be string")),
            },
        );
    }
    if is("add_effect_amount") || is("change_effect_amount") {
        if args.len() != 2 {
            return Some(Err(syntax("effect amount needs 2 args")));
        }
        proof {
            lemma_arg_smaller(args@, 1);
        }
        let effect = match effect_of(&args[0]) {
            Ok(x) => x,
            Err(e) => return Some(Err(e)),
        };
        let amount = match from_expr(&args[1]) {
            Ok(x) => x,
            Err(e) => return Some(Err(e)),
        };
        return Some(
            Ok(
                if is("add_effect_amount") {
                    Block::AddEffectAmount { effect, amount }
                } else {
                    Block::ChangeEffectAmount { effect, amount }
                },
            ),
        );
    }
    if is("stretch_scale_size") {
        if args.len() != 2 {
            return Some(Err(syntax("stretch_scale_size needs 2 args")));
        }
        proof {
            lemma_arg_smaller(args@, 1);
        }
        let dim = match dim_of(&args[0]) {
            Ok(x) => x,
            Err(e) => return Some(Err(e)),
        };
        return Some(
            match from_expr(&args[1]) {
                Ok(value) => Ok(Block::StretchScaleSize { dim, value }),
                Err(e) => Err(e),
            },
        );
    }
    if is("text_change_effect") {
        if args.len() != 2 {
            return Some(Err(syntax("text_change_effect needs 2 args")));
        }
        let effect = match text_effect_of(&args[0]) {
            Ok(x) => x,
            Err(e) => return Some(Err(e)),
        };
        return Some(
            match &args[1] {
                Expr::Bool(on) => Ok(Block::TextChangeEffect { effect, mode: *on }),
                _ => Err(syntax("text_change_effect mode must be bool")),
            },
        );
    }
    if is("text_change_font") {
        if args.len() != 1 {
            return Some(Err(syntax("text_change_font needs 1 arg")));
        }
        return Some(
            match &args[0] {
                Expr::Str(f) => Ok(Block::TextChangeFont { font: f.clone() }),
                _ => Err(syntax("text_change_font font must be string")),
            },
        );
    }
    None
}

/// The block a call used as a statement stands for.
fn stmt_call(name: &str, args: &Vec<Expr>) -> (r: crate::error::Result<Block>)
    ensures
        agrees(r, low_stmt_call(name@, expr_views(args@)), |b: Block| b@),
    decreases expr_views(args@), 1int, 2int,
{
    if let Some(r) = special_stmt_call(name, args) {
        return r;
    }
    if let Some(r) = common_call(name, args) {
        return r;
    }
    match find_dsl_kind(name) {
        Some(k) => if stmt_callable_of(k) {
            basic_call(k, args)
        } else {
            func_call(name, args)
        },
        None => func_call(name, args),
    }
}


/// Setting (or adding to) a variable; Entry's timer and answer cannot be
/// set.
fn assign(k: BasicKind, name: &str, e: &Expr) -> (r: crate::error::Result<Block>)
    ensures
        agrees(r, low_assign(k, name@, e@), |b: Block| b@),
    decreases e@, 3int, 0int,
{
    let vk = crate::block::names::kind_for(name);
    if vk == VarKind::Timer || vk == VarKind::Answer {
        let mut msg = name.to_owned();
        crate::text::push_str(&mut msg, " is reserved Entry variable (use dedicated block)");
        return Err(Error::UnmappedBlock(msg));
    }
    match from_expr(e) {
        Ok(p) => {
            let ghost pv = p@;
            let slots = vec![SlotValue::Name(name.to_owned()), SlotValue::Param(p), SlotValue::Empty];
            proof {
                assert(slot_views(slots@) =~= seq![SlotV::Name(name@), SlotV::Param(pv), SlotV::Empty]);
            }
            Ok(basic_of(k, slots))
        },
        Err(x) => Err(x),
    }
}

proof fn lemma_body_err(body: Seq<StmtV>, i: nat, n: nat)
    requires
        i <= n <= body.len(),
        low_body(body, i) is Err,
    ensures
        low_body(body, n) == low_body(body, i),
    decreases n,
{
    if n > i {
        lemma_body_err(body, i, (n - 1) as nat);
    }
}

/// The blocks of a body of statements, in order.
fn body_blocks(body: &Vec<Stmt>) -> (r: crate::error::Result<Vec<Block>>)
    ensures
        agrees(r, low_body(stmt_views(body@), body@.len()), |v: Vec<Block>| block_views(v@)),
    decreases stmt_views(body@), 0int, body@.len(),
{
    let ghost bv = stmt_views(body@);
    let mut out: Vec<Block> = Vec::new();
    let mut i: usize = 0;
    proof {
        assert(block_views(out@) =~= Seq::<BlockV>::empty());
    }
    while i < body.len()
        invariant
            i <= body.len(),
            bv == stmt_views(body@),
            low_body(bv, i as nat) == Ok::<Seq<BlockV>, ErrorKind>(block_views(out@)),
        decreases body.len() - i,
    {
        proof {
            assert(bv[i as int] == body@[i as int]@);
            assert(decreases_to!(bv => bv[i as int]));
        }
        match from_stmt(&body[i]) {
            Ok(b) => {
                let ghost before = out@;
                out.push(b);
                proof {
                    assert(block_views(out@) =~= block_views(before).push(b@));
                }
            },
            Err(e) => {
                proof {
                    lemma_body_err(bv, (i + 1) as nat, bv.len());
                }
                return Err(e);
            },
        }
        i = i + 1;
    }
    Ok(out)
}

/// The block of a statement. A `for` over a range becomes a counted
/// repeat that sets the loop variable first and adds one to it last.
pub fn from_stmt(stmt: &Stmt) -> (r: crate::error::Result<Block>)
    ensures
        agrees(r, low_stmt(stmt@), |b: Block| b@),
    decreases stmt@, 4int, 0int,
{
    match stmt {
        Stmt::VarDecl(name, e, _, _) => assign(BasicKind::SetVar, name.as_str(), e),
        Stmt::SetVar(v, e) => assign(BasicKind::SetVar, v.name.as_str(), e),
        Stmt::ChangeVariable { variable, value } => assign(BasicKind::ChangeVar, variable.name.as_str(), value),
        Stmt::Dialog { value, mode } => match from_expr(value) {
            Ok(content) => Ok(Block::Dialog { mode: *mode, content }),
            Err(e) => Err(e),
        },
        Stmt::StopAll => {
            let slots = vec![SlotValue::Empty];
            proof {
                assert(slot_views(slots@) =~= seq![SlotV::Empty]);
            }
            Ok(basic_of(BasicKind::StopAll, slots))
        },
        Stmt::Expr(_) => call_stmt(stmt),
        Stmt::Return(e) => match from_expr(e) {
            Ok(p) => Ok(Block::Return { value: Some(p) }),
            Err(x) => Err(x),
        },
        Stmt::Break => {
            let slots: Vec<SlotValue> = Vec::new();
            proof {
                assert(slot_views(slots@) =~= Seq::<SlotV>::empty());
            }
            Ok(basic_of(BasicKind::Break, slots))
        },
        Stmt::Continue => {
            let slots: Vec<SlotValue> = Vec::new();
            proof {
                assert(slot_views(slots@) =~= Seq::<SlotV>::empty());
            }
            Ok(basic_of(BasicKind::Continue, slots))
        },
        Stmt::FuncDef { .. } => func_def_stmt(stmt),
        Stmt::For { .. } => for_loop(stmt),
        _ => control_stmt(stmt),
    }
}

/// A statement that is an expression: only a call has a block.
fn call_stmt(stmt: &Stmt) -> (r: crate::error::Result<Block>)
    requires
        stmt is Expr,
    ensures
        agrees(r, low_stmt(stmt@), |b: Block| b@),
    decreases stmt@, 3int, 0int,
{
    match stmt {
        Stmt::Expr(Expr::Call(f, args)) => {
            proof {
                crate::ir::lemma_call_view(*f, *args);
            }
            stmt_call(f.name.as_str(), args)
        },
        _ => Err(syntax("stmt-level expr not a call")),
    }
}

/// A function definition: its parameter names and its body's blocks.
fn func_def_stmt(stmt: &Stmt) -> (r: crate::error::Result<Block>)
    requires
        stmt is FuncDef,
    ensures
        agrees(r, low_stmt(stmt@), |b: Block| b@),
    decreases stmt@, 3int, 0int,
{
    match stmt {
        Stmt::FuncDef { name, params, return_type: _, body } => {
            proof {
                crate::ir::lemma_body_view(*body);
                let s = stmt@;
                assert(decreases_to!(s => s->FuncDef_3));
            }
            let bs = match body_blocks(body) {
                Ok(b) => b,
                Err(e) => return Err(e),
            };
            let mut names: Vec<String> = Vec::new();
            let mut i: usize = 0;
            while i < params.len()
                invariant
                    i <= params.len(),
                    names@.len() == i,
                    forall|j: int| 0 <= j < i ==> (#[trigger] names@[j])@ == params@[j].0@,
                decreases params.len() - i,
            {
                names.push(params[i].0.clone());
                i = i + 1;
            }
            proof {
                crate::block::lemma_block_seq_view(&bs);
                assert(names@.map_values(|p: String| p@) =~= params@.map_values(
                    |p: (String, crate::ir::ParamKind)| (p.0@, p.1),
                ).map_values(|p: (Seq<char>, crate::ir::ParamKind)| p.0));
            }
            Ok(Block::FuncDef { name: name.clone(), params: names, body: bs })
        },
        _ => Err(syntax("not a function definition")),
    }
}

/// Conditionals and loops.
fn control_stmt(stmt: &Stmt) -> (r: crate::error::Result<Block>)
    requires
        stmt is If || stmt is While || stmt is Repeat || stmt is Loop,
    ensures
        agrees(r, low_stmt(stmt@), |b: Block| b@),
    decreases stmt@, 3int, 0int,
{
    match stmt {
        Stmt::If { cond, then_body, else_body } => {
            proof {
                crate::ir::lemma_body_view(*then_body);
                crate::ir::lemma_body_view(*else_body);
                let s = stmt@;
                assert(decreases_to!(s => s->If_1));
                assert(decreases_to!(s => s->If_2));
            }
            let c = match from_expr(cond) {
                Ok(c) => c,
                Err(e) => return Err(e),
            };
            let tb = match body_blocks(then_body) {
                Ok(b) => b,
                Err(e) => return Err(e),
            };
            let eb = match body_blocks(else_body) {
                Ok(b) => b,
                Err(e) => return Err(e),
            };
            proof {
                crate::block::lemma_block_seq_view(&tb);
                crate::block::lemma_block_seq_view(&eb);
            }
            if eb.len() == 0 {
                Ok(Block::If { cond: c, body: tb })
            } else {
                Ok(Block::IfElse { cond: c, then_body: tb, else_body: eb })
            }
        },
        Stmt::While { cond, body } => {
            proof {
                crate::ir::lemma_body_view(*body);
                let s = stmt@;
                assert(decreases_to!(s => s->While_1));
            }
            let c = match from_expr(cond) {
                Ok(c) => c,
                Err(e) => return Err(e),
            };
            match body_blocks(body) {
                Ok(bs) => {
                    proof {
                        crate::block::lemma_block_seq_view(&bs);
                    }
                    Ok(Block::While { cond: c, body: bs })
                },
                Err(e) => Err(e),
            }
        },
        Stmt::Repeat { times, body } => {
            proof {
                crate::ir::lemma_body_view(*body);
                let s = stmt@;
                assert(decreases_to!(s => s->Repeat_1));
            }
            let t = match from_expr(times) {
                Ok(c) => c,
                Err(e) => return Err(e),
            };
            match body_blocks(body) {
                Ok(bs) => {
                    proof {
                        crate::block::lemma_block_seq_view(&bs);
                    }
                    Ok(Block::Repeat { times: t, body: bs })
                },
                Err(e) => Err(e),
            }
        },
        Stmt::Loop { body } => {
            proof {
                crate::ir::lemma_body_view(*body);
                let s = stmt@;
                assert(decreases_to!(s => s->Loop_0));
            }
            match body_blocks(body) {
                Ok(bs) => {
                    proof {
                        crate::block::lemma_block_seq_view(&bs);
                    }
                    Ok(Block::Forever { body: bs })
                },
                Err(e) => Err(e),
            }
        },
        _ => Err(syntax("not a control statement")),
    }
}

/// A `for` loop over a range: a counted repeat of `end - start` rounds.
#[verifier::spinoff_prover]
#[verifier::rlimit(50)]
fn for_loop(stmt: &Stmt) -> (r: crate::error::Result<Block>)
    requires
        stmt is For,
    ensures
        agrees(r, low_stmt(stmt@), |b: Block| b@),
    decreases stmt@, 3int, 0int,
{
    let (var, iter, body) = match stmt {
        Stmt::For { var, iter, body } => (var, iter, body),
        _ => return Err(syntax("not a for loop")),
    };
    proof {
        crate::ir::lemma_body_view(*body);
        let s = stmt@;
        assert(decreases_to!(s => s->For_2));
    }
    match iter {
        Expr::Range(start, end) => {
            let sp = match from_expr(start) {
                Ok(p) => p,
                Err(e) => return Err(e),
            };
            let ep = match from_expr(end) {
                Ok(p) => p,
                Err(e) => return Err(e),
            };
            let ghost spv = sp@;
            let inner = match body_blocks(body) {
                Ok(b) => b,
                Err(e) => return Err(e),
            };
            let bs = for_body(var, &sp, inner);
            proof {
                crate::block::lemma_block_seq_view(&bs);
            }
            let times = sub_param(Block::CalcBinOp { op: BinOp::Sub, lhs: ep, rhs: sp });
            Ok(Block::Repeat { times, body: bs })
        },
        _ => Err(syntax("for iter not range")),
    }
}


/// The body of a counted loop: set the variable to `start`, the loop's
/// own blocks, then add one to the variable.
fn for_body(var: &String, start: &ParamBlock, inner: Vec<Block>) -> (r: Vec<Block>)
    ensures
        block_views(r@) == seq![
            BlockV::Basic(BasicKind::SetVar, seq![SlotV::Name(var@), SlotV::Param(start@), SlotV::Empty]),
        ] + block_views(inner@) + seq![
            BlockV::Basic(
                BasicKind::ChangeVar,
                seq![SlotV::Name(var@), SlotV::Param(ParamV::Number(int_number_text(1))), SlotV::Empty],
            ),
        ],
{
    let ghost iv = block_views(inner@);
    let ghost spv = start@;
    let first = vec![SlotValue::Name(var.clone()), SlotValue::Param(start.duplicate()), SlotValue::Empty];
    let last = vec![
        SlotValue::Name(var.clone()),
        SlotValue::Param(ParamBlock::Number(int_number(1))),
        SlotValue::Empty,
    ];
    proof {
        assert(slot_views(first@) =~= seq![SlotV::Name(var@), SlotV::Param(spv), SlotV::Empty]);
        assert(slot_views(last@) =~= seq![SlotV::Name(var@), SlotV::Param(ParamV::Number(int_number_text(1))), SlotV::Empty]);
    }
    let mut bs: Vec<Block> = Vec::new();
    bs.push(basic_of(BasicKind::SetVar, first));
    let ghost b0 = bs@;
    let mut rest = inner;
    bs.append(&mut rest);
    let ghost b1 = bs@;
    bs.push(basic_of(BasicKind::ChangeVar, last));
    proof {
        assert(block_views(bs@) =~= seq![BlockV::Basic(BasicKind::SetVar, seq![SlotV::Name(var@), SlotV::Param(spv), SlotV::Empty])] + iv + seq![
            BlockV::Basic(BasicKind::ChangeVar, seq![SlotV::Name(var@), SlotV::Param(ParamV::Number(int_number_text(1))), SlotV::Empty]),
        ]);
    }
    bs
}

} // verus!
