//! From blocks back to statements and expressions.
//!
//! A fixed-shape block becomes a call of its source name, its slots giving
//! the arguments (a variable slot a variable, a text slot a string). Blocks
//! with a statement of their own (assignment, loops, conditionals,
//! functions) become that statement.

use vstd::prelude::*;

use crate::block::encode::slot_at;
use crate::block::kinds::{dsl_name, value_block, BasicKind, Slot};
use crate::block::names::{dim_dsl_name, effect_name, math_op_name, qam_name, text_effect_name};
use crate::block::{
    block_views, param_views, slot_views, Block, BlockV, DialogMode, ParamBlock, ParamV, SlotV,
    SlotValue,
};
use crate::deparse::agrees;
use crate::error::{Error, ErrorKind};
use crate::ir::{call_of, expr_views, stmt_views, Expr, ExprV, ParamKind, Stmt, StmtV};
use crate::var::VarMap;
use crate::text::{is_float_text, parsed_int};

verus! {

/// A call expression whose arity is its number of arguments.
pub open spec fn call(name: Seq<char>, args: Seq<ExprV>) -> ExprV {
    ExprV::Call(name, args.len(), args)
}

/// A text as it reads in source: an integer, a decimal, or a string.
pub open spec fn raise_text(s: Seq<char>) -> ExprV {
    match parsed_int(s) {
        Some(i) => ExprV::Int(i),
        None => if is_float_text(s) {
            ExprV::Float(s)
        } else {
            ExprV::Str(s)
        },
    }
}

/// The name in slot `i`, or the empty name.
pub open spec fn slot_name(slots: Seq<SlotV>, i: int) -> Seq<char> {
    if 0 <= i < slots.len() {
        match slots[i] {
            SlotV::Name(n) => n,
            _ => ""@,
        }
    } else {
        ""@
    }
}

/// The value in slot `i`, or `Null`.
pub open spec fn slot_param(slots: Seq<SlotV>, i: int) -> ParamV {
    if 0 <= i < slots.len() {
        match slots[i] {
            SlotV::Param(p) => p,
            _ => ParamV::Null,
        }
    } else {
        ParamV::Null
    }
}

/// The expression of a parameter value; an empty slot reads as `0`.
pub open spec fn raise_param(p: ParamV) -> Result<ExprV, ErrorKind>
    decreases p, 1int, 0int,
{
    match p {
        ParamV::Null => Ok(ExprV::Int(0)),
        ParamV::Number(n) => Ok(ExprV::Float(n)),
        ParamV::Text(s) => Ok(raise_text(s)),
        ParamV::Boolean(b) => Ok(ExprV::Bool(b)),
        ParamV::Variable(n) => Ok(ExprV::Var(n)),
        ParamV::Sub(b) => raise_expr(*b),
    }
}

/// Expressions of the first `n` parameter values of `ps`.
pub open spec fn raise_params(ps: Seq<ParamV>, n: nat) -> Result<Seq<ExprV>, ErrorKind>
    decreases ps, 0int, n,
{
    if n == 0 || n > ps.len() {
        Ok(seq![])
    } else {
        match raise_params(ps, (n - 1) as nat) {
            Err(e) => Err(e),
            Ok(prev) => match raise_param(ps[n - 1]) {
                Err(e) => Err(e),
                Ok(x) => Ok(prev.push(x)),
            },
        }
    }
}

/// Call arguments from the first `n` slots of a block of kind `k`.
pub open spec fn slot_args(k: BasicKind, slots: Seq<SlotV>, n: nat) -> Result<Seq<ExprV>, ErrorKind>
    decreases slots, 0int, n,
{
    if n == 0 || n > slots.len() {
        Ok(seq![])
    } else {
        match slot_args(k, slots, (n - 1) as nat) {
            Err(e) => Err(e),
            Ok(prev) => match slots[n - 1] {
                SlotV::Empty => Ok(prev),
                SlotV::Name(nm) => if slot_at(k, n - 1) is Var || slot_at(k, n - 1) is List {
                    Ok(prev.push(ExprV::Var(nm)))
                } else {
                    Ok(prev.push(ExprV::Str(nm)))
                },
                SlotV::Param(p) => match raise_param(p) {
                    Err(e) => Err(e),
                    Ok(x) => Ok(prev.push(x)),
                },
            },
        }
    }
}

/// The call a fixed-shape block stands for.
pub open spec fn basic_call(k: BasicKind, slots: Seq<SlotV>) -> Result<ExprV, ErrorKind>
    decreases slots, 1int, 0int,
{
    match slot_args(k, slots, slots.len()) {
        Err(e) => Err(e),
        Ok(a) => Ok(call(dsl_name(k), a)),
    }
}

/// A call with the expressions of `ps` as arguments.
pub open spec fn params_call(name: Seq<char>, ps: Seq<ParamV>) -> Result<ExprV, ErrorKind>
    decreases ps, 1int, 0int,
{
    match raise_params(ps, ps.len()) {
        Err(e) => Err(e),
        Ok(a) => Ok(call(name, a)),
    }
}

/// A call with two raised arguments (the first error wins), then `rest`.
pub open spec fn pair_call(
    name: Seq<char>,
    a: Result<ExprV, ErrorKind>,
    b: Result<ExprV, ErrorKind>,
    rest: Seq<ExprV>,
) -> Result<ExprV, ErrorKind> {
    match a {
        Err(e) => Err(e),
        Ok(x) => match b {
            Err(e) => Err(e),
            Ok(y) => Ok(call(name, seq![x, y] + rest)),
        },
    }
}

/// A call with a fixed first argument and the expression of `p`.
pub open spec fn tagged_call(name: Seq<char>, first: ExprV, p: ParamV) -> Result<ExprV, ErrorKind>
    decreases p, 1int, 1int,
{
    match raise_param(p) {
        Err(e) => Err(e),
        Ok(x) => Ok(call(name, seq![first, x])),
    }
}

/// The expression a block used as a value reads as. Blocks that only act
/// have none.
pub open spec fn raise_expr(b: BlockV) -> Result<ExprV, ErrorKind>
    decreases b, 2int, 0int,
{
    match b {
        BlockV::Number(n) | BlockV::Angle(n) => Ok(ExprV::Float(n)),
        BlockV::Text(s) => Ok(raise_text(s)),
        BlockV::Color(s) => Ok(ExprV::Str(s)),
        BlockV::Boolean(v) => Ok(ExprV::Bool(v)),
        BlockV::CalcBinOp(op, l, r) | BlockV::Compare(op, l, r) | BlockV::BoolOp(op, l, r) => match raise_param(l) {
            Err(e) => Err(e),
            Ok(x) => match raise_param(r) {
                Err(e) => Err(e),
                Ok(y) => Ok(ExprV::BinOp(op, Box::new(x), Box::new(y))),
            },
        },
        BlockV::UnaryOp(op, p) => match raise_param(p) {
            Err(e) => Err(e),
            Ok(x) => Ok(ExprV::UnaryOp(op, Box::new(x))),
        },
        BlockV::StringConcat(ps) => params_call("string_concat"@, ps),
        BlockV::FuncCall(name, ps) => params_call(name, ps),
        BlockV::CalcRand(lo, hi) => pair_call("calc_rand"@, raise_param(lo), raise_param(hi), seq![]),
        BlockV::CalcOperation(op, p) => match raise_param(p) {
            Err(e) => Err(e),
            Ok(x) => Ok(call(math_op_name(op), seq![x])),
        },
        BlockV::QuotientAndMod(a, c, m) => pair_call("quotient_and_mod"@, raise_param(a), raise_param(c), seq![ExprV::Str(qam_name(m))]),
        BlockV::ReachSomeThing(t) => Ok(call("reach_something"@, seq![ExprV::Str(t)])),
        BlockV::TextChangeFont(f) => Ok(call("text_change_font"@, seq![ExprV::Str(f)])),
        BlockV::Basic(k, slots) => if k == BasicKind::GetVar {
            Ok(ExprV::Var(slot_name(slots, 0)))
        } else if value_block(k) {
            basic_call(k, slots)
        } else {
            Err(ErrorKind::Unmapped)
        },
        _ => Err(ErrorKind::Unmapped),
    }
}

/// The function a timer action block calls.
pub open spec fn timer_call_name(action: Seq<char>) -> Seq<char> {
    if action == "stop"@ {
        "stop_timer"@
    } else if action == "reset"@ {
        "reset_timer"@
    } else {
        "start_timer"@
    }
}

/// One expression statement from an expression, passing errors on.
pub open spec fn expr_stmt(r: Result<ExprV, ErrorKind>) -> Result<Seq<StmtV>, ErrorKind> {
    match r {
        Err(e) => Err(e),
        Ok(x) => Ok(seq![StmtV::Expr(x)]),
    }
}

/// The statements of the first `n` blocks of `bs`, in order.
pub open spec fn raise_blocks(bs: Seq<BlockV>, n: nat) -> Result<Seq<StmtV>, ErrorKind>
    decreases bs, 0int, n,
{
    if n == 0 || n > bs.len() {
        Ok(seq![])
    } else {
        match raise_blocks(bs, (n - 1) as nat) {
            Err(e) => Err(e),
            Ok(prev) => match raise_block(bs[n - 1]) {
                Err(e) => Err(e),
                Ok(s) => Ok(prev + s),
            },
        }
    }
}

/// The statements of a whole body.
pub open spec fn raise_body(bs: Seq<BlockV>) -> Result<Seq<StmtV>, ErrorKind>
    decreases bs, 1int, 0int,
{
    raise_blocks(bs, bs.len())
}

/// The statements a fixed-shape block stands for.
pub open spec fn raise_basic(k: BasicKind, slots: Seq<SlotV>) -> Result<Seq<StmtV>, ErrorKind>
    decreases slots, 2int, 0int,
{
    if k == BasicKind::WhenSceneStart {
        Ok(seq![StmtV::FuncDef("when_scene_start"@, seq![], None, seq![])])
    } else if k == BasicKind::StartNeighborScene {
        Ok(
            seq![
                StmtV::Expr(
                    call(
                        if slot_name(slots, 0) == "prev"@ {
                            "start_prev_scene"@
                        } else {
                            "start_next_scene"@
                        },
                        seq![],
                    ),
                ),
            ],
        )
    } else if k == BasicKind::SetVar || k == BasicKind::ChangeVar {
        match (if 1 < slots.len() {
            match slots[1] {
                SlotV::Param(p) => raise_param(p),
                _ => Ok(ExprV::Int(0)),
            }
        } else {
            Ok(ExprV::Int(0))
        }) {
            Err(e) => Err(e),
            Ok(x) => Ok(
                seq![
                    if k == BasicKind::SetVar {
                        StmtV::SetVar(slot_name(slots, 0), None, x)
                    } else {
                        StmtV::ChangeVariable(slot_name(slots, 0), None, x)
                    },
                ],
            ),
        }
    } else if k == BasicKind::GetVar {
        Ok(seq![])
    } else if k == BasicKind::Break {
        Ok(seq![StmtV::Break])
    } else if k == BasicKind::Continue {
        Ok(seq![StmtV::Continue])
    } else if k == BasicKind::StopAll {
        Ok(seq![StmtV::StopAll])
    } else {
        expr_stmt(basic_call(k, slots))
    }
}

/// The statements a block stands for (none for a bare literal).
pub open spec fn raise_block(b: BlockV) -> Result<Seq<StmtV>, ErrorKind>
    decreases b, 3int, 0int,
{
    match b {
        BlockV::Basic(k, slots) => raise_basic(k, slots),
        BlockV::If(c, body) => match raise_param(c) {
            Err(e) => Err(e),
            Ok(x) => match raise_body(body) {
                Err(e) => Err(e),
                Ok(t) => Ok(seq![StmtV::If(x, t, seq![])]),
            },
        },
        BlockV::IfElse(c, tb, eb) => match raise_param(c) {
            Err(e) => Err(e),
            Ok(x) => match raise_body(tb) {
                Err(e) => Err(e),
                Ok(t) => match raise_body(eb) {
                    Err(e) => Err(e),
                    Ok(f) => Ok(seq![StmtV::If(x, t, f)]),
                },
            },
        },
        BlockV::While(c, body) => match raise_param(c) {
            Err(e) => Err(e),
            Ok(x) => match raise_body(body) {
                Err(e) => Err(e),
                Ok(t) => Ok(seq![StmtV::While(x, t)]),
            },
        },
        BlockV::Repeat(c, body) => match raise_param(c) {
            Err(e) => Err(e),
            Ok(x) => match raise_body(body) {
                Err(e) => Err(e),
                Ok(t) => Ok(seq![StmtV::Repeat(x, t)]),
            },
        },
        BlockV::Forever(body) => match raise_body(body) {
            Err(e) => Err(e),
            Ok(t) => Ok(seq![StmtV::Loop(t)]),
        },
        BlockV::FuncDef(name, params, body) => match raise_body(body) {
            Err(e) => Err(e),
            Ok(t) => Ok(
                seq![
                    StmtV::FuncDef(
                        name,
                        params.map_values(|p: Seq<char>| (p, ParamKind::String)),
                        None,
                        t,
                    ),
                ],
            ),
        },
        BlockV::Return(v) => match v {
            Some(p) => match raise_param(p) {
                Err(e) => Err(e),
                Ok(x) => Ok(seq![StmtV::Return(x)]),
            },
            None => Ok(seq![StmtV::Return(ExprV::Int(0))]),
        },
        BlockV::Number(_) | BlockV::Text(_) | BlockV::Boolean(_) | BlockV::Angle(_) | BlockV::Color(_) => Ok(seq![]),
        BlockV::ChooseProjectTimerAction(a) => Ok(seq![StmtV::Expr(call(timer_call_name(a), seq![]))]),
        BlockV::SetVisibleProjectTimer(v) => Ok(
            seq![StmtV::Expr(call(if v { "show_timer"@ } else { "hide_timer"@ }, seq![]))],
        ),
        BlockV::SetVisibleAnswer(v) => Ok(
            seq![StmtV::Expr(call(if v { "show_answer"@ } else { "hide_answer"@ }, seq![]))],
        ),
        BlockV::Dialog(m, c) => match raise_param(c) {
            Err(e) => Err(e),
            Ok(x) => Ok(seq![StmtV::Dialog(x, m)]),
        },
        BlockV::DialogTime(m, c, t) => expr_stmt(
            pair_call(
                match m {
                    DialogMode::Say => "say"@,
                    DialogMode::Think => "think"@,
                },
                raise_param(c),
                raise_param(t),
                seq![],
            ),
        ),
        BlockV::ChangeToSomeShape(p) => Ok(seq![StmtV::Expr(call("change_to_some_shape"@, seq![ExprV::Str(p)]))]),
        BlockV::AddEffectAmount(e, a) => expr_stmt(tagged_call("add_effect_amount"@, ExprV::Str(effect_name(e)), a)),
        BlockV::ChangeEffectAmount(e, a) => expr_stmt(tagged_call("change_effect_amount"@, ExprV::Str(effect_name(e)), a)),
        BlockV::StretchScaleSize(d, v) => expr_stmt(tagged_call("stretch_scale_size"@, ExprV::Str(dim_dsl_name(d)), v)),
        BlockV::TextChangeEffect(e, on) => Ok(
            seq![StmtV::Expr(call("text_change_effect"@, seq![ExprV::Str(text_effect_name(e)), ExprV::Bool(on)]))],
        ),
        _ => expr_stmt(raise_expr(b)),
    }
}


// ---------------------------------------------------------------------
// Executable raising.
// ---------------------------------------------------------------------

fn text_expr(s: &String) -> (r: Expr)
    ensures
        r@ == raise_text(s@),
{
    match crate::text::parse_i64(s.as_str()) {
        Some(i) => Expr::Int(i),
        None => if crate::text::is_float(s.as_str()) {
            Expr::Float(s.clone())
        } else {
            Expr::Str(s.clone())
        },
    }
}

fn named_call(name: &str, args: Vec<Expr>) -> (r: Expr)
    ensures
        r@ == call(name@, expr_views(args@)),
{
    call_of(name.to_owned(), args)
}

fn exprs1(a: Expr) -> (r: Vec<Expr>)
    ensures
        expr_views(r@) == seq![a@],
{
    let ghost av = a@;
    let v = vec![a];
    proof {
        assert(expr_views(v@) =~= seq![av]);
    }
    v
}

fn exprs2(a: Expr, b: Expr) -> (r: Vec<Expr>)
    ensures
        expr_views(r@) == seq![a@, b@],
{
    let ghost av = a@;
    let ghost bv = b@;
    let v = vec![a, b];
    proof {
        assert(expr_views(v@) =~= seq![av, bv]);
    }
    v
}

fn exprs3(a: Expr, b: Expr, c: Expr) -> (r: Vec<Expr>)
    ensures
        expr_views(r@) == seq![a@, b@, c@],
{
    let ghost av = a@;
    let ghost bv = b@;
    let ghost cv = c@;
    let v = vec![a, b, c];
    proof {
        assert(expr_views(v@) =~= seq![av, bv, cv]);
    }
    v
}

fn no_exprs() -> (r: Vec<Expr>)
    ensures
        expr_views(r@) == Seq::<ExprV>::empty(),
{
    let v: Vec<Expr> = Vec::new();
    proof {
        assert(expr_views(v@) =~= Seq::<ExprV>::empty());
    }
    v
}

/// The expression of a parameter value; an empty slot reads as `0`.
pub fn expr_from_param(p: &ParamBlock, _vars: &VarMap) -> (r: crate::error::Result<Expr>)
    ensures
        agrees(r, raise_param(p@), |x: Expr| x@),
    decreases p@, 1int, 0int,
{
    match p {
        ParamBlock::Null => Ok(Expr::Int(0)),
        ParamBlock::Number(n) => Ok(Expr::Float(n.clone())),
        ParamBlock::Text(t) => Ok(text_expr(t)),
        ParamBlock::Boolean(b) => Ok(Expr::Bool(*b)),
        ParamBlock::Variable(n) => Ok(Expr::Var(n.clone())),
        ParamBlock::Sub(b) => expr_from_block(b, _vars),
    }
}

proof fn lemma_params_err(ps: Seq<ParamV>, i: nat, n: nat)
    requires
        i <= n <= ps.len(),
        raise_params(ps, i) is Err,
    ensures
        raise_params(ps, n) == raise_params(ps, i),
    decreases n,
{
    if n > i {
        lemma_params_err(ps, i, (n - 1) as nat);
    }
}

proof fn lemma_slot_args_err(k: BasicKind, s: Seq<SlotV>, i: nat, n: nat)
    requires
        i <= n <= s.len(),
        slot_args(k, s, i) is Err,
    ensures
        slot_args(k, s, n) == slot_args(k, s, i),
    decreases n,
{
    if n > i {
        lemma_slot_args_err(k, s, i, (n - 1) as nat);
    }
}

proof fn lemma_blocks_err(bs: Seq<BlockV>, i: nat, n: nat)
    requires
        i <= n <= bs.len(),
        raise_blocks(bs, i) is Err,
    ensures
        raise_blocks(bs, n) == raise_blocks(bs, i),
    decreases n,
{
    if n > i {
        lemma_blocks_err(bs, i, (n - 1) as nat);
    }
}

/// Expressions of each parameter value, left to right.
fn param_exprs(ps: &Vec<ParamBlock>, vars: &VarMap) -> (r: crate::error::Result<Vec<Expr>>)
    ensures
        agrees(r, raise_params(param_views(ps@), ps@.len()), |v: Vec<Expr>| expr_views(v@)),
    decreases param_views(ps@), 0int, ps@.len(),
{
    let ghost pv = param_views(ps@);
    let mut out: Vec<Expr> = Vec::new();
    let mut i: usize = 0;
    proof {
        assert(expr_views(out@) =~= Seq::<ExprV>::empty());
    }
    while i < ps.len()
        invariant
            i <= ps.len(),
            pv == param_views(ps@),
            raise_params(pv, i as nat) == Ok::<Seq<ExprV>, ErrorKind>(expr_views(out@)),
        decreases ps.len() - i,
    {
        proof {
            assert(pv[i as int] == ps@[i as int]@);
            assert(decreases_to!(pv => pv[i as int]));
        }
        match expr_from_param(&ps[i], vars) {
            Ok(x) => {
                let ghost before = out@;
                out.push(x);
                proof {
                    assert(expr_views(out@) =~= expr_views(before).push(x@));
                }
            },
            Err(e) => {
                proof {
                    lemma_params_err(pv, (i + 1) as nat, pv.len());
                }
                return Err(e);
            },
        }
        i = i + 1;
    }
    Ok(out)
}

/// Call arguments from the slots of a block of kind `k`.
fn slot_exprs(k: BasicKind, slots: &Vec<SlotValue>, vars: &VarMap) -> (r: crate::error::Result<Vec<Expr>>)
    ensures
        agrees(r, slot_args(k, slot_views(slots@), slots@.len()), |v: Vec<Expr>| expr_views(v@)),
    decreases slot_views(slots@), 0int, slots@.len(),
{
    let ghost sv = slot_views(slots@);
    let lay = crate::block::kinds::layout_of(k);
    let mut out: Vec<Expr> = Vec::new();
    let mut i: usize = 0;
    proof {
        assert(expr_views(out@) =~= Seq::<ExprV>::empty());
    }
    while i < slots.len()
        invariant
            i <= slots.len(),
            sv == slot_views(slots@),
            lay@ == crate::block::kinds::layout(k),
            slot_args(k, sv, i as nat) == Ok::<Seq<ExprV>, ErrorKind>(expr_views(out@)),
        decreases slots.len() - i,
    {
        proof {
            assert(sv[i as int] == slots@[i as int]@);
            assert(decreases_to!(sv => sv[i as int]));
        }
        let ghost before = out@;
        let slot = if i < lay.len() {
            lay[i]
        } else {
            Slot::Empty
        };
        match &slots[i] {
            SlotValue::Empty => {},
            SlotValue::Name(nm) => {
                if slot == Slot::Var || slot == Slot::List {
                    out.push(Expr::Var(nm.clone()));
                } else {
                    out.push(Expr::Str(nm.clone()));
                }
                proof {
                    assert(expr_views(out@) =~= expr_views(before).push(out@.last()@));
                }
            },
            SlotValue::Param(p) => match {
                proof {
                    let si = sv[i as int];
                    assert(decreases_to!(si => si->Param_0));
                }
                expr_from_param(p, vars)
            } {
                Ok(x) => {
                    out.push(x);
                    proof {
                        assert(expr_views(out@) =~= expr_views(before).push(x@));
                    }
                },
                Err(e) => {
                    proof {
                        lemma_slot_args_err(k, sv, (i + 1) as nat, sv.len());
                    }
                    return Err(e);
                },
            },
        }
        i = i + 1;
    }
    Ok(out)
}

/// The call a fixed-shape block stands for.
fn basic_expr(k: BasicKind, slots: &Vec<SlotValue>, vars: &VarMap) -> (r: crate::error::Result<Expr>)
    ensures
        agrees(r, basic_call(k, slot_views(slots@)), |x: Expr| x@),
    decreases slot_views(slots@), 1int, 0int,
{
    match slot_exprs(k, slots, vars) {
        Ok(a) => Ok(named_call(crate::block::kinds::dsl_call_name(k), a)),
        Err(e) => Err(e),
    }
}

/// A call with the expressions of `ps` as arguments.
fn params_expr(name: &str, ps: &Vec<ParamBlock>, vars: &VarMap) -> (r: crate::error::Result<Expr>)
    ensures
        agrees(r, params_call(name@, param_views(ps@)), |x: Expr| x@),
    decreases param_views(ps@), 1int, 0int,
{
    match param_exprs(ps, vars) {
        Ok(a) => Ok(named_call(name, a)),
        Err(e) => Err(e),
    }
}

fn unmapped(b: &Block) -> (e: Error)
    ensures
        e.kind() == ErrorKind::Unmapped,
{
    let mut msg = "block used as expr: ".to_owned();
    crate::text::push_str(&mut msg, b.type_id());
    Error::UnmappedBlock(msg)
}

/// The expression a block used as a value reads as; a block that only
/// acts is an `UnmappedBlock` error.
pub fn expr_from_block(b: &Block, vars: &VarMap) -> (r: crate::error::Result<Expr>)
    ensures
        agrees(r, raise_expr(b@), |x: Expr| x@),
    decreases b@, 2int, 0int,
{
    match b {
        Block::Number(n) | Block::Angle(n) => Ok(Expr::Float(n.clone())),
        Block::Text(t) => Ok(text_expr(t)),
        Block::Color(t) => Ok(Expr::Str(t.clone())),
        Block::Boolean(v) => Ok(Expr::Bool(*v)),
        Block::CalcBinOp { op, lhs, rhs } | Block::Compare { op, lhs, rhs } | Block::BoolOp { op, lhs, rhs } => {
            let x = match expr_from_param(lhs, vars) {
                Ok(x) => x,
                Err(e) => return Err(e),
            };
            match expr_from_param(rhs, vars) {
                Ok(y) => Ok(Expr::BinOp(*op, Box::new(x), Box::new(y))),
                Err(e) => Err(e),
            }
        },
        Block::UnaryOp { op, expr } => match expr_from_param(expr, vars) {
            Ok(x) => Ok(Expr::UnaryOp(*op, Box::new(x))),
            Err(e) => Err(e),
        },
        Block::StringConcat { parts } => {
            proof {
                crate::block::lemma_param_seq_view(parts);
            }
            params_expr("string_concat", parts, vars)
        },
        Block::FuncCall { name, args } => {
            proof {
                crate::block::lemma_param_seq_view(args);
            }
            params_expr(name.as_str(), args, vars)
        },
        Block::CalcRand { min, max } => {
            let x = match expr_from_param(min, vars) {
                Ok(x) => x,
                Err(e) => return Err(e),
            };
            match expr_from_param(max, vars) {
                Ok(y) => {
                    let a = exprs2(x, y);
                    proof {
                        assert(expr_views(a@) =~= seq![x@, y@] + Seq::<ExprV>::empty());
                    }
                    Ok(named_call("calc_rand", a))
                },
                Err(e) => Err(e),
            }
        },
        Block::CalcOperation { op, expr } => match expr_from_param(expr, vars) {
            Ok(x) => Ok(named_call(crate::block::names::math_op_to_name(*op), exprs1(x))),
            Err(e) => Err(e),
        },
        Block::QuotientAndMod { a, b: c, mode } => {
            let x = match expr_from_param(a, vars) {
                Ok(x) => x,
                Err(e) => return Err(e),
            };
            match expr_from_param(c, vars) {
                Ok(y) => {
                    let m = Expr::Str(crate::block::names::qam_to_str(*mode).to_owned());
                    let ghost mv = m@;
                    let args = exprs3(x, y, m);
                    proof {
                        assert(expr_views(args@) =~= seq![x@, y@] + seq![mv]);
                    }
                    Ok(named_call("quotient_and_mod", args))
                },
                Err(e) => Err(e),
            }
        },
        Block::ReachSomeThing { target } => Ok(named_call("reach_something", exprs1(Expr::Str(target.clone())))),
        Block::TextChangeFont { font } => Ok(named_call("text_change_font", exprs1(Expr::Str(font.clone())))),
        Block::Basic { kind, slots } => {
            proof {
                crate::block::lemma_slot_seq_view(slots);
            }
            if *kind == BasicKind::GetVar {
                let n = if slots.len() > 0 {
                    match &slots[0] {
                        SlotValue::Name(n) => n.clone(),
                        _ => "".to_owned(),
                    }
                } else {
                    "".to_owned()
                };
                Ok(Expr::Var(n))
            } else if crate::block::kinds::value_block_of(*kind) {
                basic_expr(*kind, slots, vars)
            } else {
                Err(unmapped(b))
            }
        },
        _ => Err(unmapped(b)),
    }
}


fn one_stmt(s: Stmt) -> (r: Vec<Stmt>)
    ensures
        stmt_views(r@) == seq![s@],
{
    let ghost sv = s@;
    let v = vec![s];
    proof {
        assert(stmt_views(v@) =~= seq![sv]);
    }
    v
}

fn no_stmts() -> (r: Vec<Stmt>)
    ensures
        stmt_views(r@) == Seq::<StmtV>::empty(),
{
    let v: Vec<Stmt> = Vec::new();
    proof {
        assert(stmt_views(v@) =~= Seq::<StmtV>::empty());
    }
    v
}

fn expr_stmts(r: crate::error::Result<Expr>) -> (o: crate::error::Result<Vec<Stmt>>)
    ensures
        r matches Ok(x) ==> o matches Ok(v) && stmt_views(v@) == seq![StmtV::Expr(x@)],
        r matches Err(e) ==> o matches Err(f) && f.kind() == e.kind(),
{
    match r {
        Ok(x) => Ok(one_stmt(Stmt::Expr(x))),
        Err(e) => Err(e),
    }
}

/// The statements of a body of blocks, in order.
pub(crate) fn body_stmts(bs: &Vec<Block>, vars: &VarMap) -> (r: crate::error::Result<Vec<Stmt>>)
    ensures
        agrees(r, raise_body(block_views(bs@)), |v: Vec<Stmt>| stmt_views(v@)),
    decreases block_views(bs@), 1int, 0int,
{
    let ghost bv = block_views(bs@);
    let mut out: Vec<Stmt> = Vec::new();
    let mut i: usize = 0;
    proof {
        assert(stmt_views(out@) =~= Seq::<StmtV>::empty());
    }
    while i < bs.len()
        invariant
            i <= bs.len(),
            bv == block_views(bs@),
            raise_blocks(bv, i as nat) == Ok::<Seq<StmtV>, ErrorKind>(stmt_views(out@)),
        decreases bs.len() - i,
    {
        proof {
            assert(bv[i as int] == bs@[i as int]@);
            assert(decreases_to!(bv => bv[i as int]));
        }
        match block_stmts(&bs[i], vars) {
            Ok(mut more) => {
                let ghost before = out@;
                let ghost mv = more@;
                out.append(&mut more);
                proof {
                    assert(stmt_views(out@) =~= stmt_views(before) + stmt_views(mv));
                }
            },
            Err(e) => {
                proof {
                    lemma_blocks_err(bv, (i + 1) as nat, bv.len());
                }
                return Err(e);
            },
        }
        i = i + 1;
    }
    Ok(out)
}

/// The statements a fixed-shape block stands for.
fn basic_stmts(k: BasicKind, slots: &Vec<SlotValue>, vars: &VarMap) -> (r: crate::error::Result<Vec<Stmt>>)
    ensures
        agrees(r, raise_basic(k, slot_views(slots@)), |v: Vec<Stmt>| stmt_views(v@)),
    decreases slot_views(slots@), 2int, 0int,
{
    let ghost sv = slot_views(slots@);
    proof {
        reveal_strlit("prev");
    }
    let name0 = if slots.len() > 0 {
        match &slots[0] {
            SlotValue::Name(n) => n.clone(),
            _ => "".to_owned(),
        }
    } else {
        "".to_owned()
    };
    proof {
        assert(name0@ == slot_name(sv, 0));
    }
    if k == BasicKind::WhenSceneStart {
        let params: Vec<(String, ParamKind)> = Vec::new();
        let body: Vec<Stmt> = Vec::new();
        proof {
            assert(params@.map_values(|p: (String, ParamKind)| (p.0@, p.1)) =~= Seq::<(Seq<char>, ParamKind)>::empty());
            crate::ir::lemma_body_view(body);
            assert(stmt_views(body@) =~= Seq::<StmtV>::empty());
        }
        return Ok(
            one_stmt(Stmt::FuncDef { name: "when_scene_start".to_owned(), params, return_type: None, body }),
        );
    }
    if k == BasicKind::StartNeighborScene {
        let n = if crate::text::str_is(name0.as_str(), "prev") {
            "start_prev_scene"
        } else {
            "start_next_scene"
        };
        return Ok(one_stmt(Stmt::Expr(named_call(n, no_exprs()))));
    }
    if k == BasicKind::SetVar || k == BasicKind::ChangeVar {
        let x = if slots.len() > 1 {
            match &slots[1] {
                SlotValue::Param(p) => {
                    proof {
                        assert(sv[1] == slots@[1]@);
                        assert(decreases_to!(sv => sv[1]));
                        let si = sv[1];
                        assert(decreases_to!(si => si->Param_0));
                    }
                    match expr_from_param(p, vars) {
                        Ok(x) => x,
                        Err(e) => return Err(e),
                    }
                },
                _ => Expr::Int(0),
            }
        } else {
            Expr::Int(0)
        };
        let v = crate::ir::VarRef::new(name0.as_str());
        let st = if k == BasicKind::SetVar {
            Stmt::SetVar(v, x)
        } else {
            Stmt::ChangeVariable { variable: v, value: x }
        };
        return Ok(one_stmt(st));
    }
    if k == BasicKind::GetVar {
        return Ok(no_stmts());
    }
    if k == BasicKind::Break {
        return Ok(one_stmt(Stmt::Break));
    }
    if k == BasicKind::Continue {
        return Ok(one_stmt(Stmt::Continue));
    }
    if k == BasicKind::StopAll {
        return Ok(one_stmt(Stmt::StopAll));
    }
    expr_stmts(basic_expr(k, slots, vars))
}

/// The statements of a block (none for a bare literal).
fn block_stmts(b: &Block, vars: &VarMap) -> (r: crate::error::Result<Vec<Stmt>>)
    ensures
        agrees(r, raise_block(b@), |v: Vec<Stmt>| stmt_views(v@)),
    decreases b@, 3int, 0int,
{
    match b {
        Block::Basic { kind, slots } => {
            proof {
                crate::block::lemma_slot_seq_view(slots);
            }
            basic_stmts(*kind, slots, vars)
        },
        Block::If { .. } | Block::IfElse { .. } | Block::While { .. } | Block::Repeat { .. }
        | Block::Forever { .. } | Block::FuncDef { .. } => flow_stmts(b, vars),
        Block::Return { value } => match value {
            Some(p) => match expr_from_param(p, vars) {
                Ok(x) => Ok(one_stmt(Stmt::Return(x))),
                Err(e) => Err(e),
            },
            None => Ok(one_stmt(Stmt::Return(Expr::Int(0)))),
        },
        Block::Number(_) | Block::Text(_) | Block::Boolean(_) | Block::Angle(_) | Block::Color(_) => Ok(no_stmts()),
        _ => action_stmts(b, vars),
    }
}

/// Conditionals, loops and function definitions.
fn flow_stmts(b: &Block, vars: &VarMap) -> (r: crate::error::Result<Vec<Stmt>>)
    requires
        b is If || b is IfElse || b is While || b is Repeat || b is Forever || b is FuncDef,
    ensures
        agrees(r, raise_block(b@), |v: Vec<Stmt>| stmt_views(v@)),
    decreases b@, 2int, 0int,
{
    match b {
        Block::If { cond, body } | Block::While { cond, body } | Block::Repeat { times: cond, body } => {
            proof {
                crate::block::lemma_block_seq_view(body);
            }
            let c = match expr_from_param(cond, vars) {
                Ok(c) => c,
                Err(e) => return Err(e),
            };
            let t = match body_stmts(body, vars) {
                Ok(t) => t,
                Err(e) => return Err(e),
            };
            proof {
                crate::ir::lemma_body_view(t);
            }
            let st = match b {
                Block::If { .. } => {
                    let e = no_stmts();
                    proof {
                        crate::ir::lemma_body_view(e);
                    }
                    Stmt::If { cond: c, then_body: t, else_body: e }
                },
                Block::While { .. } => Stmt::While { cond: c, body: t },
                _ => Stmt::Repeat { times: c, body: t },
            };
            Ok(one_stmt(st))
        },
        Block::IfElse { cond, then_body, else_body } => {
            proof {
                crate::block::lemma_block_seq_view(then_body);
                crate::block::lemma_block_seq_view(else_body);
            }
            let c = match expr_from_param(cond, vars) {
                Ok(c) => c,
                Err(e) => return Err(e),
            };
            let t = match body_stmts(then_body, vars) {
                Ok(t) => t,
                Err(e) => return Err(e),
            };
            let f = match body_stmts(else_body, vars) {
                Ok(t) => t,
                Err(e) => return Err(e),
            };
            proof {
                crate::ir::lemma_body_view(t);
                crate::ir::lemma_body_view(f);
            }
            Ok(one_stmt(Stmt::If { cond: c, then_body: t, else_body: f }))
        },
        Block::Forever { body } => {
            proof {
                crate::block::lemma_block_seq_view(body);
            }
            match body_stmts(body, vars) {
                Ok(t) => {
                    proof {
                        crate::ir::lemma_body_view(t);
                    }
                    Ok(one_stmt(Stmt::Loop { body: t }))
                },
                Err(e) => Err(e),
            }
        },
        Block::FuncDef { name, params, body } => {
            proof {
                crate::block::lemma_block_seq_view(body);
            }
            let t = match body_stmts(body, vars) {
                Ok(t) => t,
                Err(e) => return Err(e),
            };
            let mut ps: Vec<(String, ParamKind)> = Vec::new();
            let mut i: usize = 0;
            while i < params.len()
                invariant
                    i <= params.len(),
                    ps@.len() == i,
                    forall|j: int| 0 <= j < i ==> (#[trigger] ps@[j]).0@ == params@[j]@ && ps@[j].1 == ParamKind::String,
                decreases params.len() - i,
            {
                ps.push((params[i].clone(), ParamKind::String));
                i = i + 1;
            }
            proof {
                crate::ir::lemma_body_view(t);
                assert(ps@.map_values(|p: (String, ParamKind)| (p.0@, p.1)) =~= params@.map_values(
                    |p: String| p@,
                ).map_values(|p: Seq<char>| (p, ParamKind::String)));
            }
            Ok(one_stmt(Stmt::FuncDef { name: name.clone(), params: ps, return_type: None, body: t }))
        },
        _ => Ok(no_stmts()),
    }
}

/// Blocks that act through a call (or a bubble statement).
fn action_stmts(b: &Block, vars: &VarMap) -> (r: crate::error::Result<Vec<Stmt>>)
    requires
        !(b is Basic || b is If || b is IfElse || b is While || b is Repeat || b is Forever
            || b is FuncDef || b is Return || b is Number || b is Text || b is Boolean || b is Angle
            || b is Color),
    ensures
        agrees(r, raise_block(b@), |v: Vec<Stmt>| stmt_views(v@)),
    decreases b@, 2int, 0int,
{
    proof {
        reveal_strlit("stop");
        reveal_strlit("reset");
    }
    match b {
        Block::ChooseProjectTimerAction { action } => {
            let n = if crate::text::str_is(action.as_str(), "stop") {
                "stop_timer"
            } else if crate::text::str_is(action.as_str(), "reset") {
                "reset_timer"
            } else {
                "start_timer"
            };
            Ok(one_stmt(Stmt::Expr(named_call(n, no_exprs()))))
        },
        Block::SetVisibleProjectTimer { value } => {
            let n = if *value {
                "show_timer"
            } else {
                "hide_timer"
            };
            Ok(one_stmt(Stmt::Expr(named_call(n, no_exprs()))))
        },
        Block::SetVisibleAnswer { value } => {
            let n = if *value {
                "show_answer"
            } else {
                "hide_answer"
            };
            Ok(one_stmt(Stmt::Expr(named_call(n, no_exprs()))))
        },
        Block::Dialog { mode, content } => match expr_from_param(content, vars) {
            Ok(x) => Ok(one_stmt(Stmt::Dialog { value: x, mode: *mode })),
            Err(e) => Err(e),
        },
        Block::DialogTime { mode, content, time } => {
            let x = match expr_from_param(content, vars) {
                Ok(x) => x,
                Err(e) => return Err(e),
            };
            let y = match expr_from_param(time, vars) {
                Ok(y) => y,
                Err(e) => return Err(e),
            };
            let n = match mode {
                DialogMode::Say => "say",
                DialogMode::Think => "think",
            };
            let a = exprs2(x, y);
            proof {
                assert(expr_views(a@) =~= seq![x@, y@] + Seq::<ExprV>::empty());
            }
            Ok(one_stmt(Stmt::Expr(named_call(n, a))))
        },
        Block::ChangeToSomeShape { picture } => Ok(
            one_stmt(Stmt::Expr(named_call("change_to_some_shape", exprs1(Expr::Str(picture.clone()))))),
        ),
        Block::AddEffectAmount { effect, amount } | Block::ChangeEffectAmount { effect, amount } => {
            let n = match b {
                Block::AddEffectAmount { .. } => "add_effect_amount",
                _ => "change_effect_amount",
            };
            match expr_from_param(amount, vars) {
                Ok(x) => {
                    let f = Expr::Str(crate::block::names::effect_to_str(*effect).to_owned());
                    Ok(one_stmt(Stmt::Expr(named_call(n, exprs2(f, x)))))
                },
                Err(e) => Err(e),
            }
        },
        Block::StretchScaleSize { dim, value } => match expr_from_param(value, vars) {
            Ok(x) => {
                let f = Expr::Str(crate::block::names::dim_to_dsl_str(*dim).to_owned());
                Ok(one_stmt(Stmt::Expr(named_call("stretch_scale_size", exprs2(f, x)))))
            },
            Err(e) => Err(e),
        },
        Block::TextChangeEffect { effect, mode } => {
            let f = Expr::Str(crate::block::names::text_effect_to_str(*effect).to_owned());
            Ok(one_stmt(Stmt::Expr(named_call("text_change_effect", exprs2(f, Expr::Bool(*mode))))))
        },
        _ => expr_stmts(expr_from_block(b, vars)),
    }
}

/// Adds the statements of `block` to `stmts`. On an error nothing is added.
pub fn from_block_owned(block: &Block, stmts: &mut Vec<Stmt>, vars: &VarMap) -> (r: crate::error::Result<()>)
    ensures
        r is Ok ==> raise_block(block@) is Ok && stmt_views(final(stmts)@) == stmt_views(old(stmts)@)
            + raise_block(block@).unwrap(),
        r matches Err(e) ==> raise_block(block@) == Err::<Seq<StmtV>, ErrorKind>(e.kind()) && final(stmts)@
            == old(stmts)@,
{
    match block_stmts(block, vars) {
        Ok(mut more) => {
            let ghost before = stmts@;
            let ghost mv = more@;
            stmts.append(&mut more);
            proof {
                assert(stmt_views(stmts@) =~= stmt_views(before) + stmt_views(mv));
            }
            Ok(())
        },
        Err(e) => Err(e),
    }
}

} // verus!
