//! What lowered statements mean: the integer arithmetic that calc blocks
//! compute, and what a lowered statement gives when it is read back.

use vstd::prelude::*;

use crate::block::kinds::BasicKind;
use crate::block::lower::{int_number_text, low_body, low_expr, low_stmt};
use crate::block::{BlockV, ParamV, SlotV};
use crate::error::ErrorKind;
use crate::ir::{BinOp, ExprV, StmtV};
use crate::raise::{raise_block, raise_body, raise_param};
use crate::text::{dec_text, hex_digit, int_text};

verus! {

/// Integer arithmetic of an operator, where it has one.
pub open spec fn arith(op: BinOp, a: int, b: int) -> Option<int> {
    match op {
        BinOp::Add => Some(a + b),
        BinOp::Sub => Some(a - b),
        BinOp::Mul => Some(a * b),
        _ => None,
    }
}

/// The value of a source expression made of integer literals, `+`, `-`
/// and `*`.
pub open spec fn expr_int(e: ExprV) -> Option<int>
    decreases e,
{
    match e {
        ExprV::Int(i) => Some(i),
        ExprV::BinOp(op, l, r) => match (expr_int(*l), expr_int(*r)) {
            (Some(a), Some(b)) => arith(op, a, b),
            _ => None,
        },
        _ => None,
    }
}

/// The value of a string of decimal digits.
pub open spec fn digits_value(d: Seq<char>) -> int
    decreases d.len(),
{
    if d.len() == 0 {
        0
    } else {
        digits_value(d.drop_last()) * 10 + ((d.last() as int) - 48)
    }
}

/// The value of the text of a whole number: decimal digits, with `-` in
/// front of a negative one, and possibly `.0` after them.
pub open spec fn whole_value(t: Seq<char>) -> int {
    let u = if t.len() >= 2 && t[t.len() - 2] == '.' && t[t.len() - 1] == '0' {
        t.take(t.len() - 2)
    } else {
        t
    };
    if u.len() > 0 && u[0] == '-' {
        -digits_value(u.skip(1))
    } else {
        digits_value(u)
    }
}

/// The integer a parameter stands for when Entry computes it: a number,
/// or a calc block of `+`, `-` or `*` (left operand first) on such values.
pub open spec fn int_value(p: ParamV) -> Option<int>
    decreases p,
{
    match p {
        ParamV::Number(t) => Some(whole_value(t)),
        ParamV::Sub(b) => match *b {
            BlockV::CalcBinOp(op, x, y) => match (int_value(x), int_value(y)) {
                (Some(a), Some(c)) => arith(op, a, c),
                _ => None,
            },
            _ => None,
        },
        _ => None,
    }
}

proof fn lemma_dec_text(n: nat)
    ensures
        dec_text(n).len() >= 1,
        forall|k: int| 0 <= k < dec_text(n).len() ==> 48 <= (#[trigger] dec_text(n)[k] as int) <= 57,
        digits_value(dec_text(n)) == n,
    decreases n,
{
    if n < 10 {
        let s = dec_text(n);
        assert(s == seq![hex_digit(n)]);
        assert(s.drop_last() =~= Seq::<char>::empty());
        assert((hex_digit(n) as int) == n + 48);
        assert(s.last() == hex_digit(n));
        assert(digits_value(s.drop_last()) == 0);
        assert(digits_value(s) == digits_value(s.drop_last()) * 10 + ((s.last() as int) - 48));
    } else {
        lemma_dec_text(n / 10);
        let s = dec_text(n);
        let d = (n % 10) as nat;
        assert(s == dec_text(n / 10).push(hex_digit(d)));
        assert(s.drop_last() =~= dec_text(n / 10));
        assert((hex_digit(d) as int) == d + 48);
        assert(s.last() == hex_digit(d));
        assert forall|k: int| 0 <= k < s.len() implies 48 <= (#[trigger] s[k] as int) <= 57 by {
            if k < s.len() - 1 {
                assert(s[k] == dec_text(n / 10)[k]);
            }
        }
        assert(digits_value(s) == digits_value(s.drop_last()) * 10 + ((s.last() as int) - 48));
        assert(digits_value(s) == (n / 10) * 10 + d);
        assert((n / 10) * 10 + n % 10 == n);
    }
}

/// The text written for a whole number reads back as that number.
proof fn lemma_whole_number(i: int)
    ensures
        whole_value(int_number_text(i)) == i,
{
    let t = int_text(i);
    if i < 0 {
        lemma_dec_text((-i) as nat);
        let d = dec_text((-i) as nat);
        assert(t == seq!['-'] + d);
        assert(t.skip(1) =~= d);
        assert(t.len() >= 2);
        assert(t[t.len() - 2] != '.') by {
            if t.len() - 2 > 0 {
                assert(t[t.len() - 2] == d[t.len() - 3]);
            }
        }
    } else {
        lemma_dec_text(i as nat);
        let d = dec_text(i as nat);
        assert(t == d);
        assert(t[0] != '-');
        if t.len() >= 2 {
            assert(t[t.len() - 2] != '.');
        }
    }
    reveal_strlit(".0");
    let w = int_number_text(i);
    if -10000000000000000 < i < 10000000000000000 {
        assert(w == t + ".0"@);
        assert(w.take(w.len() - 2) =~= t);
        assert(w[w.len() - 2] == '.' && w[w.len() - 1] == '0');
    } else {
        assert(w == t);
    }
}

/// Lowering keeps the value of integer arithmetic: the parameter written
/// for an expression of integer literals and `+`, `-`, `*` computes, as
/// Entry's calc blocks do, the expression's value.
pub proof fn law_lowered_arithmetic_keeps_value(e: ExprV)
    requires
        expr_int(e) is Some,
        low_expr(e) is Ok,
    ensures
        int_value(low_expr(e)->Ok_0) == expr_int(e),
    decreases e,
{
    match e {
        ExprV::Int(i) => {
            lemma_whole_number(i);
        },
        ExprV::BinOp(op, l, r) => {
            law_lowered_arithmetic_keeps_value(*l);
            law_lowered_arithmetic_keeps_value(*r);
        },
        _ => {},
    }
}

/// A block that sets (or adds to) variable `v` a value computing `value`.
pub open spec fn var_step(b: BlockV, k: BasicKind, v: Seq<char>, value: Option<int>) -> bool {
    match b {
        BlockV::Basic(k2, s) => k2 == k && s.len() == 3 && s[0] == SlotV::Name(v) && match s[1] {
            SlotV::Param(p) => int_value(p) == value,
            _ => false,
        },
        _ => false,
    }
}

/// `for v in a..b` runs its body `b - a` times: the repeat count of the
/// lowered loop computes end minus start, the loop variable is first set to
/// the start, and each round ends by adding one to it.
pub proof fn law_for_runs_end_minus_start_times(v: Seq<char>, a: ExprV, b: ExprV, body: Seq<StmtV>)
    requires
        low_stmt(StmtV::For(v, ExprV::Range(Box::new(a), Box::new(b)), body)) is Ok,
        expr_int(a) is Some,
        expr_int(b) is Some,
    ensures
        match low_stmt(StmtV::For(v, ExprV::Range(Box::new(a), Box::new(b)), body)) {
            Ok(BlockV::Repeat(times, bs)) => int_value(times) == Some(expr_int(b)->0 - expr_int(a)->0) && bs.len() >= 2
                && var_step(bs[0], BasicKind::SetVar, v, expr_int(a)) && var_step(bs.last(), BasicKind::ChangeVar, v, Some(1int)),
            _ => false,
        },
{
    law_lowered_arithmetic_keeps_value(a);
    law_lowered_arithmetic_keeps_value(b);
    lemma_whole_number(1);
}

/// Lowering an `if` and reading the block back keeps the statement: the
/// condition, the then-body and the else-body come back in their places,
/// each as it reads back on its own.
pub proof fn law_if_reads_back(
    c: ExprV,
    t: Seq<StmtV>,
    e: Seq<StmtV>,
    c2: ExprV,
    t2: Seq<StmtV>,
    e2: Seq<StmtV>,
)
    requires
        low_expr(c) is Ok,
        low_body(t, t.len()) is Ok,
        low_body(e, e.len()) is Ok,
        raise_param(low_expr(c)->Ok_0) == Ok::<ExprV, ErrorKind>(c2),
        raise_body(low_body(t, t.len())->Ok_0) == Ok::<Seq<StmtV>, ErrorKind>(t2),
        raise_body(low_body(e, e.len())->Ok_0) == Ok::<Seq<StmtV>, ErrorKind>(e2),
    ensures
        low_stmt(StmtV::If(c, t, e)) matches Ok(blk) && raise_block(blk) == Ok::<Seq<StmtV>, ErrorKind>(
            seq![StmtV::If(c2, t2, e2)],
        ),
{
    let eb = low_body(e, e.len())->Ok_0;
    if eb.len() == 0 {
        assert(raise_body(eb) == Ok::<Seq<StmtV>, ErrorKind>(seq![]));
        assert(e2 == Seq::<StmtV>::empty());
    }
}

/// Lowering a binary expression and reading it back keeps the operator and
/// the order of its operands: each operand comes back, in its place, as it
/// reads back on its own.
pub proof fn law_binary_expr_reads_back(op: BinOp, l: ExprV, r: ExprV, l2: ExprV, r2: ExprV)
    requires
        low_expr(l) is Ok,
        low_expr(r) is Ok,
        raise_param(low_expr(l)->Ok_0) == Ok::<ExprV, ErrorKind>(l2),
        raise_param(low_expr(r)->Ok_0) == Ok::<ExprV, ErrorKind>(r2),
    ensures
        low_expr(ExprV::BinOp(op, Box::new(l), Box::new(r))) matches Ok(p) && raise_param(p) == Ok::<ExprV, ErrorKind>(
            ExprV::BinOp(op, Box::new(l2), Box::new(r2)),
        ),
{
}

/// Lowering a `while` loop and reading the block back keeps it: the
/// condition and the body come back as they read back on their own.
pub proof fn law_while_reads_back(c: ExprV, body: Seq<StmtV>, c2: ExprV, body2: Seq<StmtV>)
    requires
        low_expr(c) is Ok,
        low_body(body, body.len()) is Ok,
        raise_param(low_expr(c)->Ok_0) == Ok::<ExprV, ErrorKind>(c2),
        raise_body(low_body(body, body.len())->Ok_0) == Ok::<Seq<StmtV>, ErrorKind>(body2),
    ensures
        low_stmt(StmtV::While(c, body)) matches Ok(blk) && raise_block(blk) == Ok::<Seq<StmtV>, ErrorKind>(
            seq![StmtV::While(c2, body2)],
        ),
{
}

} // verus!
