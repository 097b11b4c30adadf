//! Writes a program back as source text of the Rust-like language.
//!
//! The output is what the source reader accepts:
//!   fn when_start() { ... }
//!   let x = 0;
//!   x = (x + 1);
//!   if (x != 1) { ... } else { ... }
//!   while cond { ... }
//!   for _ in 0..n { ... }

use vstd::prelude::*;
use crate::block::DialogMode;
use crate::error::Result;
use crate::ir::{BinOp, Expr, ExprV, ParamKind, Program, ReturnType, Stmt, StmtV, UnaryOp, expr_views, stmt_views};
use crate::text::{i64_string, push_char, push_str, int_text, char_at, char_len};
use crate::var::{info_ref_views, lists_vars, VarInfo, VarInfoV, VarInit, VarKind, VarMap, VarMapV};

verus! {

// ---------------------------------------------------------------------------
// Model of the text
// ---------------------------------------------------------------------------

pub open spec fn op_text(op: BinOp) -> Seq<char> {
    match op {
        BinOp::Add => "+"@,
        BinOp::Sub => "-"@,
        BinOp::Mul => "*"@,
        BinOp::Div => "/"@,
        BinOp::Mod => "%"@,
        BinOp::Eq => "=="@,
        BinOp::Ne => "!="@,
        BinOp::Lt => "<"@,
        BinOp::Le => "<="@,
        BinOp::Gt => ">"@,
        BinOp::Ge => ">="@,
        BinOp::And => "&&"@,
        BinOp::Or => "||"@,
    }
}

/// The operator symbols of Rust source are told apart by their text.
proof fn lemma_symbols_distinct()
    ensures
        forall|a: crate::parse::SynBinOp, b: crate::parse::SynBinOp|
            a != b && !(a is Other) && !(b is Other) ==> #[trigger] crate::parse::syn_op_symbol(a) != #[trigger] crate::parse::syn_op_symbol(b),
{
    reveal_strlit("+");
    reveal_strlit("-");
    reveal_strlit("*");
    reveal_strlit("/");
    reveal_strlit("%");
    reveal_strlit("&&");
    reveal_strlit("||");
    reveal_strlit("==");
    reveal_strlit("<");
    reveal_strlit("<=");
    reveal_strlit("!=");
    reveal_strlit(">=");
    reveal_strlit(">");
    assert forall|a: crate::parse::SynBinOp, b: crate::parse::SynBinOp|
        a != b && !(a is Other) && !(b is Other) implies #[trigger] crate::parse::syn_op_symbol(a) != #[trigger] crate::parse::syn_op_symbol(b) by {
        let x = crate::parse::syn_op_symbol(a);
        let y = crate::parse::syn_op_symbol(b);
        if x == y {
            assert(x.len() == y.len());
            assert(x[0] == y[0]);
            if x.len() > 1 {
                assert(x[1] == y[1]);
            }
        }
    }
}

/// Reading then printing keeps each operator: a binary operator read from
/// Rust source is printed with the symbol it was written with.
pub proof fn law_read_operator_prints_as_written(op: crate::parse::SynBinOp)
    requires
        crate::parse::bin_op(op) is Some,
    ensures
        op_text(crate::parse::bin_op(op)->0) == crate::parse::syn_op_symbol(op),
{
}

/// Printing then reading keeps each operator: the symbol printed for an
/// operator is the Rust source symbol of exactly one operator of the syntax
/// tree, and that one is read back as the same operator.
pub proof fn law_printed_operator_reads_back(op: BinOp)
    ensures
        exists|s: crate::parse::SynBinOp| #[trigger] crate::parse::syn_op_symbol(s) == op_text(op) && crate::parse::bin_op(s) == Some(op),
        forall|s: crate::parse::SynBinOp|
            !(s is Other) && #[trigger] crate::parse::syn_op_symbol(s) == op_text(op) ==> crate::parse::bin_op(s) == Some(op),
{
    lemma_symbols_distinct();
    let s = match op {
        BinOp::Add => crate::parse::SynBinOp::Add,
        BinOp::Sub => crate::parse::SynBinOp::Sub,
        BinOp::Mul => crate::parse::SynBinOp::Mul,
        BinOp::Div => crate::parse::SynBinOp::Div,
        BinOp::Mod => crate::parse::SynBinOp::Rem,
        BinOp::Eq => crate::parse::SynBinOp::Eq,
        BinOp::Ne => crate::parse::SynBinOp::Ne,
        BinOp::Lt => crate::parse::SynBinOp::Lt,
        BinOp::Le => crate::parse::SynBinOp::Le,
        BinOp::Gt => crate::parse::SynBinOp::Gt,
        BinOp::Ge => crate::parse::SynBinOp::Ge,
        BinOp::And => crate::parse::SynBinOp::And,
        BinOp::Or => crate::parse::SynBinOp::Or,
    };
    assert(crate::parse::syn_op_symbol(s) == op_text(op) && crate::parse::bin_op(s) == Some(op));
    assert forall|t: crate::parse::SynBinOp|
        !(t is Other) && #[trigger] crate::parse::syn_op_symbol(t) == op_text(op) implies crate::parse::bin_op(t) == Some(op) by {
        if t != s {
            assert(crate::parse::syn_op_symbol(t) != crate::parse::syn_op_symbol(s));
        }
    }
}

pub open spec fn un_op_text(op: UnaryOp) -> Seq<char> {
    match op {
        UnaryOp::Neg => "-"@,
        UnaryOp::Not => "!"@,
    }
}

/// A character inside a string literal: quote, backslash, newline, carriage
/// return and tab are escaped.
pub open spec fn escape_char(c: char) -> Seq<char> {
    if c == '"' {
        seq!['\\', '"']
    } else if c == '\\' {
        seq!['\\', '\\']
    } else if c == '\n' {
        seq!['\\', 'n']
    } else if c == '\r' {
        seq!['\\', 'r']
    } else if c == '\t' {
        seq!['\\', 't']
    } else {
        seq![c]
    }
}

pub open spec fn escaped(s: Seq<char>) -> Seq<char>
    decreases s.len(),
{
    if s.len() == 0 {
        Seq::empty()
    } else {
        escaped(s.drop_last()) + escape_char(s.last())
    }
}

/// The first `n` segments of a path, joined by `::`.
pub open spec fn path_text(p: Seq<Seq<char>>, n: nat) -> Seq<char>
    decreases n,
{
    if n == 0 || n > p.len() {
        Seq::empty()
    } else if n == 1 {
        p[0]
    } else {
        path_text(p, (n - 1) as nat) + "::"@ + p[n - 1]
    }
}

pub open spec fn expr_text(e: ExprV) -> Seq<char>
    decreases e, 1int, 0int,
{
    match e {
        ExprV::Int(i) => int_text(i),
        ExprV::Float(t) => float_text(t),
        ExprV::Str(s) => seq!['"'] + escaped(s) + seq!['"'],
        ExprV::Bool(b) => if b { "true"@ } else { "false"@ },
        ExprV::Var(n) => n,
        ExprV::Path(p) => path_text(p, p.len()),
        ExprV::BinOp(op, l, r) => seq!['('] + expr_text(*l) + seq![' '] + op_text(op) + seq![' '] + expr_text(*r)
            + seq![')'],
        ExprV::UnaryOp(op, x) => un_op_text(op) + expr_text(*x),
        ExprV::Call(name, _, args) => name + seq!['('] + args_text(args, args.len()) + seq![')'],
        ExprV::Func(name, _) => name,
        ExprV::Range(a, b) => expr_text(*a) + ".."@ + expr_text(*b),
    }
}

/// A decimal literal with no fractional part or exponent gets `.0`, so
/// that it reads back as a decimal.
pub open spec fn whole_number(t: Seq<char>) -> bool {
    let d = if t.len() > 0 && t[0] == '-' { t.drop_first() } else { t };
    d.len() > 0 && crate::text::all_digits(d)
}

pub open spec fn float_text(t: Seq<char>) -> Seq<char> {
    if whole_number(t) {
        t + ".0"@
    } else {
        t
    }
}

/// The first `n` arguments, separated by `, `.
pub open spec fn args_text(args: Seq<ExprV>, n: nat) -> Seq<char>
    decreases args, 0int, n,
{
    if n == 0 || n > args.len() {
        Seq::empty()
    } else {
        args_text(args, (n - 1) as nat) + (if n > 1 { ", "@ } else { Seq::empty() }) + expr_text(args[n - 1])
    }
}

pub open spec fn init_text(i: VarInit) -> Seq<char> {
    match i {
        VarInit::Int0 => "0"@,
        VarInit::Float0 => "0.0"@,
        VarInit::EmptyStr => "\"\""@,
        VarInit::False => "false"@,
        VarInit::EmptyList => "[]"@,
    }
}

pub open spec fn decl_text(v: VarInfoV, ind: Seq<char>) -> Seq<char> {
    ind + "let "@ + v.name + " = "@ + init_text(v.init) + ";\n"@
}

/// Declarations of the first `n` variables.
pub open spec fn decls_text(vs: Seq<VarInfoV>, n: nat, ind: Seq<char>) -> Seq<char>
    decreases n,
{
    if n == 0 || n > vs.len() {
        Seq::empty()
    } else {
        decls_text(vs, (n - 1) as nat, ind) + decl_text(vs[n - 1], ind)
    }
}

/// The type written for a declared variable of a special kind.
pub open spec fn kind_note(k: Option<VarKind>) -> Seq<char> {
    match k {
        Some(VarKind::Cloud) => ": CloudVar"@,
        Some(VarKind::RealTime) => ": RealtimeVar"@,
        _ => Seq::empty(),
    }
}

pub open spec fn param_text(p: (Seq<char>, ParamKind)) -> Seq<char> {
    p.0 + match p.1 {
        ParamKind::String => ": i32"@,
        ParamKind::Bool => ": bool"@,
    }
}

/// The first `n` parameters, separated by `, `.
pub open spec fn params_text(ps: Seq<(Seq<char>, ParamKind)>, n: nat) -> Seq<char>
    decreases n,
{
    if n == 0 || n > ps.len() {
        Seq::empty()
    } else {
        params_text(ps, (n - 1) as nat) + (if n > 1 { ", "@ } else { Seq::empty() }) + param_text(ps[n - 1])
    }
}

pub open spec fn return_note(r: Option<ReturnType>) -> Seq<char> {
    match r {
        Some(ReturnType::Number) => " -> i32"@,
        Some(ReturnType::String) => " -> String"@,
        Some(ReturnType::Boolean) => " -> bool"@,
        None => Seq::empty(),
    }
}

pub open spec fn indent_step() -> Seq<char> {
    "    "@
}

/// A braced body: its statements one level deeper, then the closing brace.
pub open spec fn block_tail(body: Seq<StmtV>, ind: Seq<char>, vs: Seq<VarInfoV>) -> Seq<char>
    decreases body, 1int, 0int,
{
    stmts_text(body, body.len(), ind + indent_step(), vs) + ind + "}\n"@
}

pub open spec fn stmt_text(s: StmtV, ind: Seq<char>, vs: Seq<VarInfoV>) -> Seq<char>
    decreases s, 2int, 0int,
{
    match s {
        StmtV::VarDecl(name, e, k, _) => ind + "let "@ + name + kind_note(k) + " = "@ + expr_text(e) + ";\n"@,
        StmtV::SetVar(name, _, e) => ind + name + " = "@ + expr_text(e) + ";\n"@,
        StmtV::ChangeVariable(name, _, e) => ind + name + " = ("@ + name + " + "@ + expr_text(e) + ");\n"@,
        StmtV::Dialog(e, m) => ind + (if m == DialogMode::Say { "say("@ } else { "think("@ }) + expr_text(e)
            + ");\n"@,
        StmtV::StopAll => ind + "stop_run_all();\n"@,
        StmtV::FuncDef(name, ps, rt, body) => ind + "fn "@ + name + seq!['('] + params_text(ps, ps.len()) + seq![')']
            + return_note(rt) + " {\n"@ + decls_text(vs, vs.len(), ind + indent_step()) + block_tail(body, ind, vs),
        StmtV::Expr(e) => ind + expr_text(e) + ";\n"@,
        StmtV::If(c, t, e) => ind + "if "@ + expr_text(c) + " {\n"@ + if e.len() == 0 {
            block_tail(t, ind, vs)
        } else {
            stmts_text(t, t.len(), ind + indent_step(), vs) + ind + "} else {\n"@ + block_tail(e, ind, vs)
        },
        StmtV::While(c, b) => ind + "while "@ + expr_text(c) + " {\n"@ + block_tail(b, ind, vs),
        StmtV::For(v, it, b) => ind + "for "@ + v + " in "@ + expr_text(it) + " {\n"@ + block_tail(b, ind, vs),
        StmtV::Repeat(t, b) => ind + "for _ in 0.."@ + expr_text(t) + " {\n"@ + block_tail(b, ind, vs),
        StmtV::Loop(b) => ind + "loop {\n"@ + block_tail(b, ind, vs),
        StmtV::Return(e) => ind + "return "@ + expr_text(e) + ";\n"@,
        StmtV::Break => ind + "break;\n"@,
        StmtV::Continue => ind + "continue;\n"@,
    }
}

/// The first `n` statements.
pub open spec fn stmts_text(ss: Seq<StmtV>, n: nat, ind: Seq<char>, vs: Seq<VarInfoV>) -> Seq<char>
    decreases ss, 0int, n,
{
    if n == 0 || n > ss.len() {
        Seq::empty()
    } else {
        stmts_text(ss, (n - 1) as nat, ind, vs) + stmt_text(ss[n - 1], ind, vs)
    }
}

/// A run of top-level statements, wrapped as the start trigger's body.
pub open spec fn trigger_text(run: Seq<StmtV>, vs: Seq<VarInfoV>) -> Seq<char> {
    "fn when_start() {\n"@ + decls_text(vs, vs.len(), indent_step()) + stmts_text(run, run.len(), indent_step(), vs)
        + "}\n"@
}

/// The text of the first `n` top-level statements, and the run of
/// statements that are not function definitions still waiting for the
/// start trigger.
pub open spec fn program_state(ss: Seq<StmtV>, n: nat, vs: Seq<VarInfoV>) -> (Seq<char>, Seq<StmtV>)
    decreases n,
{
    if n == 0 || n > ss.len() {
        (Seq::empty(), Seq::empty())
    } else {
        let (out, run) = program_state(ss, (n - 1) as nat, vs);
        let s = ss[n - 1];
        if s is FuncDef {
            (out + flush_text(run, vs) + stmt_text(s, Seq::empty(), vs) + seq!['\n'], Seq::empty())
        } else {
            (out, run.push(s))
        }
    }
}

pub open spec fn flush_text(run: Seq<StmtV>, vs: Seq<VarInfoV>) -> Seq<char> {
    if run.len() == 0 {
        Seq::empty()
    } else {
        trigger_text(run, vs) + seq!['\n']
    }
}

/// The source text of a program: each function definition as it stands,
/// every run of other statements wrapped in `fn when_start() { ... }` with
/// the declarations of `vs` first.
pub open spec fn program_text(ss: Seq<StmtV>, vs: Seq<VarInfoV>) -> Seq<char> {
    let (out, run) = program_state(ss, ss.len(), vs);
    out + flush_text(run, vs)
}


// ---------------------------------------------------------------------------
// Writing
// ---------------------------------------------------------------------------

fn op_str(op: BinOp) -> (r: &'static str)
    ensures
        r@ == op_text(op),
{
    match op {
        BinOp::Add => "+",
        BinOp::Sub => "-",
        BinOp::Mul => "*",
        BinOp::Div => "/",
        BinOp::Mod => "%",
        BinOp::Eq => "==",
        BinOp::Ne => "!=",
        BinOp::Lt => "<",
        BinOp::Le => "<=",
        BinOp::Gt => ">",
        BinOp::Ge => ">=",
        BinOp::And => "&&",
        BinOp::Or => "||",
    }
}

fn un_op_str(op: UnaryOp) -> (r: &'static str)
    ensures
        r@ == un_op_text(op),
{
    match op {
        UnaryOp::Neg => "-",
        UnaryOp::Not => "!",
    }
}

fn is_whole(t: &str) -> (r: bool)
    ensures
        r == whole_number(t@),
{
    let n = char_len(t);
    let start: usize = if n > 0 && char_at(t, 0) == '-' { 1 } else { 0 };
    let ghost d = if t@.len() > 0 && t@[0] == '-' { t@.drop_first() } else { t@ };
    proof {
        assert(d =~= t@.subrange(start as int, n as int));
    }
    if start >= n {
        proof {
            assert(d.len() == 0);
            assert(!whole_number(t@));
        }
        return false;
    }
    let mut i: usize = start;
    while i < n
        invariant
            start <= i <= n,
            n == t@.len(),
            d == t@.subrange(start as int, n as int),
            d == (if t@.len() > 0 && t@[0] == '-' { t@.drop_first() } else { t@ }),
            forall|j: int| start <= j < i ==> '0' <= #[trigger] t@[j] <= '9',
        decreases n - i,
    {
        let c = char_at(t, i);
        if !('0' <= c && c <= '9') {
            proof {
                assert(d[i - start] == c);
                assert(!crate::text::all_digits(d));
                assert(!whole_number(t@));
            }
            return false;
        }
        i = i + 1;
    }
    proof {
        assert forall|j: int| 0 <= j < d.len() implies '0' <= #[trigger] d[j] <= '9' by {
            assert(d[j] == t@[j + start]);
        }
    }
    true
}

fn push_escaped(out: &mut String, s: &str)
    ensures
        final(out)@ == old(out)@ + escaped(s@),
{
    let n = char_len(s);
    let mut i: usize = 0;
    let ghost start = out@;
    while i < n
        invariant
            n == s@.len(),
            i <= n,
            out@ == start + escaped(s@.take(i as int)),
        decreases n - i,
    {
        let c = char_at(s, i);
        if c == '"' {
            push_str(out, "\\\"");
        } else if c == '\\' {
            push_str(out, "\\\\");
        } else if c == '\n' {
            push_str(out, "\\n");
        } else if c == '\r' {
            push_str(out, "\\r");
        } else if c == '\t' {
            push_str(out, "\\t");
        } else {
            push_char(out, c);
        }
        proof {
            reveal_strlit("\\\"");
            reveal_strlit("\\\\");
            reveal_strlit("\\n");
            reveal_strlit("\\r");
            reveal_strlit("\\t");
            assert(s@.take(i + 1).drop_last() =~= s@.take(i as int));
            assert(out@ =~= start + escaped(s@.take(i + 1)));
        }
        i = i + 1;
    }
    proof {
        assert(s@.take(n as int) =~= s@);
    }
}

fn emit_expr(expr: &Expr, out: &mut String)
    ensures
        final(out)@ == old(out)@ + expr_text(expr@),
    decreases expr@, 1int, 0int,
{
    let ghost start = out@;
    match expr {
        Expr::Int(n) => {
            let t = i64_string(*n);
            push_str(out, t.as_str());
        },
        Expr::Float(t) => {
            push_str(out, t.as_str());
            if is_whole(t.as_str()) {
                push_str(out, ".0");
            }
        },
        Expr::Str(s) => {
            push_char(out, '"');
            push_escaped(out, s.as_str());
            push_char(out, '"');
            assert(out@ =~= start + expr_text(expr@));
        },
        Expr::Bool(b) => {
            push_str(out, if *b { "true" } else { "false" });
        },
        Expr::Var(name) => {
            push_str(out, name.as_str());
        },
        Expr::Path(segs) => {
            let ghost p = segs@.map_values(|s: String| s@);
            let mut i: usize = 0;
            while i < segs.len()
                invariant
                    i <= segs.len(),
                    p == segs@.map_values(|s: String| s@),
                    out@ == start + path_text(p, i as nat),
                decreases segs.len() - i,
            {
                if i > 0 {
                    push_str(out, "::");
                }
                push_str(out, segs[i].as_str());
                i = i + 1;
            }
        },
        Expr::BinOp(op, l, r) => {
            push_char(out, '(');
            emit_expr(l, out);
            push_char(out, ' ');
            push_str(out, op_str(*op));
            push_char(out, ' ');
            emit_expr(r, out);
            push_char(out, ')');
            assert(out@ =~= start + expr_text(expr@));
        },
        Expr::UnaryOp(op, x) => {
            push_str(out, un_op_str(*op));
            emit_expr(x, out);
            assert(out@ =~= start + expr_text(expr@));
        },
        Expr::Call(f, args) => {
            proof {
                crate::ir::lemma_call_view(*f, *args);
                let c = expr@;
                assert(decreases_to!(c => c->Call_2));
            }
            push_str(out, f.name.as_str());
            push_char(out, '(');
            emit_args(args, out);
            push_char(out, ')');
            assert(out@ =~= start + expr_text(expr@));
        },
        Expr::Func(f) => {
            push_str(out, f.name.as_str());
        },
        Expr::Range(a, b) => {
            emit_expr(a, out);
            push_str(out, "..");
            emit_expr(b, out);
            assert(out@ =~= start + expr_text(expr@));
        },
    }
}

fn emit_args(args: &Vec<Expr>, out: &mut String)
    ensures
        final(out)@ == old(out)@ + args_text(expr_views(args@), args@.len()),
    decreases expr_views(args@), 0int, args@.len(),
{
    let ghost av = expr_views(args@);
    let ghost start = out@;
    let mut i: usize = 0;
    while i < args.len()
        invariant
            i <= args.len(),
            av == expr_views(args@),
            out@ == start + args_text(av, i as nat),
        decreases args.len() - i,
    {
        proof {
            assert(av[i as int] == args@[i as int]@);
            assert(decreases_to!(av => av[i as int]));
        }
        if i > 0 {
            push_str(out, ", ");
        }
        emit_expr(&args[i], out);
        proof {
            assert(out@ =~= start + args_text(av, (i + 1) as nat));
        }
        i = i + 1;
    }
}

fn emit_var_decl(out: &mut String, ind: &str, v: &VarInfo)
    ensures
        final(out)@ == old(out)@ + decl_text(v@, ind@),
{
    let ghost start = out@;
    push_str(out, ind);
    push_str(out, "let ");
    push_str(out, v.name.as_str());
    push_str(out, " = ");
    match v.init {
        VarInit::Int0 => push_str(out, "0"),
        VarInit::Float0 => push_str(out, "0.0"),
        VarInit::EmptyStr => push_str(out, "\"\""),
        VarInit::False => push_str(out, "false"),
        VarInit::EmptyList => push_str(out, "[]"),
    }
    push_str(out, ";\n");
    assert(out@ =~= start + decl_text(v@, ind@));
}

fn emit_var_decls(out: &mut String, ind: &str, vars: &Vec<&VarInfo>)
    ensures
        final(out)@ == old(out)@ + decls_text(info_ref_views(vars@), vars@.len(), ind@),
{
    let ghost vs = info_ref_views(vars@);
    let ghost start = out@;
    let mut i: usize = 0;
    while i < vars.len()
        invariant
            i <= vars.len(),
            vs == info_ref_views(vars@),
            out@ == start + decls_text(vs, i as nat, ind@),
        decreases vars.len() - i,
    {
        emit_var_decl(out, ind, vars[i]);
        proof {
            assert(out@ =~= start + decls_text(vs, (i + 1) as nat, ind@));
        }
        i = i + 1;
    }
}

fn emit_params(out: &mut String, ps: &Vec<(String, ParamKind)>)
    ensures
        final(out)@ == old(out)@ + params_text(ps@.map_values(|p: (String, ParamKind)| (p.0@, p.1)), ps@.len()),
{
    let ghost pv = ps@.map_values(|p: (String, ParamKind)| (p.0@, p.1));
    let ghost start = out@;
    let mut i: usize = 0;
    while i < ps.len()
        invariant
            i <= ps.len(),
            pv == ps@.map_values(|p: (String, ParamKind)| (p.0@, p.1)),
            out@ == start + params_text(pv, i as nat),
        decreases ps.len() - i,
    {
        if i > 0 {
            push_str(out, ", ");
        }
        push_str(out, ps[i].0.as_str());
        match ps[i].1 {
            ParamKind::String => push_str(out, ": i32"),
            ParamKind::Bool => push_str(out, ": bool"),
        }
        proof {
            assert(out@ =~= start + params_text(pv, (i + 1) as nat));
        }
        i = i + 1;
    }
}

fn deeper(ind: &str) -> (r: String)
    ensures
        r@ == ind@ + indent_step(),
{
    let mut s = String::new();
    push_str(&mut s, ind);
    push_str(&mut s, "    ");
    s
}

fn emit_tail(body: &Vec<Stmt>, out: &mut String, ind: &str, vars: &Vec<&VarInfo>)
    ensures
        final(out)@ == old(out)@ + block_tail(stmt_views(body@), ind@, info_ref_views(vars@)),
    decreases stmt_views(body@), 1int, 0int,
{
    let inner = deeper(ind);
    emit_body(body, out, inner.as_str(), vars);
    push_str(out, ind);
    push_str(out, "}\n");
    assert(final(out)@ =~= old(out)@ + block_tail(stmt_views(body@), ind@, info_ref_views(vars@)));
}

fn emit_body(body: &Vec<Stmt>, out: &mut String, ind: &str, vars: &Vec<&VarInfo>)
    ensures
        final(out)@ == old(out)@ + stmts_text(stmt_views(body@), body@.len(), ind@, info_ref_views(vars@)),
    decreases stmt_views(body@), 0int, body@.len(),
{
    let ghost bv = stmt_views(body@);
    let ghost vs = info_ref_views(vars@);
    let ghost start = out@;
    let mut i: usize = 0;
    while i < body.len()
        invariant
            i <= body.len(),
            bv == stmt_views(body@),
            vs == info_ref_views(vars@),
            out@ == start + stmts_text(bv, i as nat, ind@, vs),
        decreases body.len() - i,
    {
        proof {
            assert(bv[i as int] == body@[i as int]@);
            assert(decreases_to!(bv => bv[i as int]));
        }
        emit_stmt(&body[i], out, ind, vars);
        proof {
            assert(out@ =~= start + stmts_text(bv, (i + 1) as nat, ind@, vs));
        }
        i = i + 1;
    }
}

fn emit_simple(stmt: &Stmt, out: &mut String, ind: &str, vars: &Vec<&VarInfo>)
    requires
        !(stmt is FuncDef || stmt is If || stmt is While || stmt is For || stmt is Repeat || stmt is Loop),
    ensures
        final(out)@ == old(out)@ + stmt_text(stmt@, ind@, info_ref_views(vars@)),
{
    let ghost start = out@;
    push_str(out, ind);
    match stmt {
        Stmt::VarDecl(name, e, k, _) => {
            push_str(out, "let ");
            push_str(out, name.as_str());
            match k {
                Some(VarKind::Cloud) => push_str(out, ": CloudVar"),
                Some(VarKind::RealTime) => push_str(out, ": RealtimeVar"),
                _ => {},
            }
            push_str(out, " = ");
            emit_expr(e, out);
            push_str(out, ";\n");
        },
        Stmt::SetVar(v, e) => {
            push_str(out, v.name.as_str());
            push_str(out, " = ");
            emit_expr(e, out);
            push_str(out, ";\n");
        },
        Stmt::ChangeVariable { variable, value } => {
            push_str(out, variable.name.as_str());
            push_str(out, " = (");
            push_str(out, variable.name.as_str());
            push_str(out, " + ");
            emit_expr(value, out);
            push_str(out, ");\n");
        },
        Stmt::Dialog { value, mode } => {
            match mode {
                DialogMode::Say => push_str(out, "say("),
                DialogMode::Think => push_str(out, "think("),
            }
            emit_expr(value, out);
            push_str(out, ");\n");
        },
        Stmt::StopAll => {
            push_str(out, "stop_run_all();\n");
        },
        Stmt::Expr(e) => {
            emit_expr(e, out);
            push_str(out, ";\n");
        },
        Stmt::Return(e) => {
            push_str(out, "return ");
            emit_expr(e, out);
            push_str(out, ";\n");
        },
        Stmt::Break => {
            push_str(out, "break;\n");
        },
        Stmt::Continue => {
            push_str(out, "continue;\n");
        },
        _ => {},
    }
    assert(out@ =~= start + stmt_text(stmt@, ind@, info_ref_views(vars@)));
}

fn emit_func_def(stmt: &Stmt, out: &mut String, ind: &str, vars: &Vec<&VarInfo>)
    requires
        stmt is FuncDef,
    ensures
        final(out)@ == old(out)@ + stmt_text(stmt@, ind@, info_ref_views(vars@)),
    decreases stmt@, 2int, 1int,
{
    let ghost start = out@;
    if let Stmt::FuncDef { name, params, return_type, body } = stmt {
        proof {
            crate::ir::lemma_body_view(*body);
            let s = stmt@;
            assert(decreases_to!(s => s->FuncDef_3));
        }
        push_str(out, ind);
        push_str(out, "fn ");
        push_str(out, name.as_str());
        push_char(out, '(');
        emit_params(out, params);
        push_char(out, ')');
        match return_type {
            Some(ReturnType::Number) => push_str(out, " -> i32"),
            Some(ReturnType::String) => push_str(out, " -> String"),
            Some(ReturnType::Boolean) => push_str(out, " -> bool"),
            None => {},
        }
        push_str(out, " {\n");
        let inner = deeper(ind);
        emit_var_decls(out, inner.as_str(), vars);
        emit_tail(body, out, ind, vars);
        assert(out@ =~= start + stmt_text(stmt@, ind@, info_ref_views(vars@)));
    }
}

fn emit_if(stmt: &Stmt, out: &mut String, ind: &str, vars: &Vec<&VarInfo>)
    requires
        stmt is If,
    ensures
        final(out)@ == old(out)@ + stmt_text(stmt@, ind@, info_ref_views(vars@)),
    decreases stmt@, 2int, 1int,
{
    let ghost start = out@;
    if let Stmt::If { cond, then_body, else_body } = stmt {
        proof {
            crate::ir::lemma_body_view(*then_body);
            crate::ir::lemma_body_view(*else_body);
            let s = stmt@;
            assert(decreases_to!(s => s->If_1));
            assert(decreases_to!(s => s->If_2));
        }
        push_str(out, ind);
        push_str(out, "if ");
        emit_expr(cond, out);
        push_str(out, " {\n");
        if else_body.len() == 0 {
            emit_tail(then_body, out, ind, vars);
        } else {
            let inner = deeper(ind);
            emit_body(then_body, out, inner.as_str(), vars);
            push_str(out, ind);
            push_str(out, "} else {\n");
            emit_tail(else_body, out, ind, vars);
        }
        assert(out@ =~= start + stmt_text(stmt@, ind@, info_ref_views(vars@)));
    }
}

fn emit_loop(stmt: &Stmt, out: &mut String, ind: &str, vars: &Vec<&VarInfo>)
    requires
        stmt is While || stmt is For || stmt is Repeat || stmt is Loop,
    ensures
        final(out)@ == old(out)@ + stmt_text(stmt@, ind@, info_ref_views(vars@)),
    decreases stmt@, 2int, 1int,
{
    let ghost start = out@;
    push_str(out, ind);
    match stmt {
        Stmt::While { cond, body } => {
            proof {
                crate::ir::lemma_body_view(*body);
                let s = stmt@;
                assert(decreases_to!(s => s->While_1));
            }
            push_str(out, "while ");
            emit_expr(cond, out);
            push_str(out, " {\n");
            emit_tail(body, out, ind, vars);
        },
        Stmt::For { var, iter, body } => {
            proof {
                crate::ir::lemma_body_view(*body);
                let s = stmt@;
                assert(decreases_to!(s => s->For_2));
            }
            push_str(out, "for ");
            push_str(out, var.as_str());
            push_str(out, " in ");
            emit_expr(iter, out);
            push_str(out, " {\n");
            emit_tail(body, out, ind, vars);
        },
        Stmt::Repeat { times, body } => {
            proof {
                crate::ir::lemma_body_view(*body);
                let s = stmt@;
                assert(decreases_to!(s => s->Repeat_1));
            }
            push_str(out, "for _ in 0..");
            emit_expr(times, out);
            push_str(out, " {\n");
            emit_tail(body, out, ind, vars);
        },
        Stmt::Loop { body } => {
            proof {
                crate::ir::lemma_body_view(*body);
                let s = stmt@;
                assert(decreases_to!(s => s->Loop_0));
            }
            push_str(out, "loop {\n");
            emit_tail(body, out, ind, vars);
        },
        _ => {},
    }
    assert(out@ =~= start + stmt_text(stmt@, ind@, info_ref_views(vars@)));
}

fn emit_stmt(stmt: &Stmt, out: &mut String, ind: &str, vars: &Vec<&VarInfo>)
    ensures
        final(out)@ == old(out)@ + stmt_text(stmt@, ind@, info_ref_views(vars@)),
    decreases stmt@, 2int, 2int,
{
    match stmt {
        Stmt::FuncDef { .. } => emit_func_def(stmt, out, ind, vars),
        Stmt::If { .. } => emit_if(stmt, out, ind, vars),
        Stmt::While { .. } | Stmt::For { .. } | Stmt::Repeat { .. } | Stmt::Loop { .. } => emit_loop(stmt, out, ind, vars),
        _ => emit_simple(stmt, out, ind, vars),
    }
}

/// Writes the statements `lo..hi` of the program as the start trigger.
fn emit_trigger_block(stmts: &Vec<Stmt>, lo: usize, hi: usize, out: &mut String, vars: &Vec<&VarInfo>)
    requires
        lo <= hi <= stmts@.len(),
    ensures
        final(out)@ == old(out)@ + trigger_text(stmt_views(stmts@).subrange(lo as int, hi as int), info_ref_views(vars@)),
{
    let ghost run = stmt_views(stmts@).subrange(lo as int, hi as int);
    let ghost vs = info_ref_views(vars@);
    let ghost start = out@;
    push_str(out, "fn when_start() {\n");
    emit_var_decls(out, "    ", vars);
    let ghost mid = out@;
    let mut i: usize = lo;
    while i < hi
        invariant
            lo <= i <= hi <= stmts@.len(),
            run == stmt_views(stmts@).subrange(lo as int, hi as int),
            vs == info_ref_views(vars@),
            out@ == mid + stmts_text(run, (i - lo) as nat, "    "@, vs),
        decreases hi - i,
    {
        emit_stmt(&stmts[i], out, "    ", vars);
        proof {
            assert(run[i - lo] == stmts@[i as int]@);
            assert(out@ =~= mid + stmts_text(run, (i + 1 - lo) as nat, "    "@, vs));
        }
        i = i + 1;
    }
    push_str(out, "}\n");
    proof {
        reveal_strlit("    ");
        assert(indent_step() == "    "@);
    }
    assert(out@ =~= start + trigger_text(run, vs));
}

/// The source text of a program with no declared variables.
pub fn emit(program: &Program) -> (r: Result<String>)
    ensures
        r matches Ok(s) && s@ == program_text(stmt_views(program.stmts@), Seq::empty()),
{
    let vars = VarMap::new();
    let r = emit_with_var_map(program, &vars);
    proof {
        let s = r->Ok_0;
        let vs = choose|vs: Seq<VarInfoV>| lists_vars(vs, vars@) && s@ == program_text(stmt_views(program.stmts@), vs);
        if vs.len() > 0 {
            assert(vars@.ids.contains_key(vs[0].id));
        }
        assert(vs =~= Seq::<VarInfoV>::empty());
    }
    r
}

/// The source text of a program. Function definitions are written as they
/// stand; every run of other statements becomes the body of
/// `fn when_start() { ... }`, and each body of a function or trigger starts
/// with a declaration of every variable of `vars`, in the order that the
/// table lists them.
pub fn emit_with_var_map(program: &Program, vars: &VarMap) -> (r: Result<String>)
    ensures
        r matches Ok(s) && exists|vs: Seq<VarInfoV>|
            lists_vars(vs, vars@) && s@ == program_text(stmt_views(program.stmts@), vs),
{
    let list = vars.iter();
    let ghost vs = info_ref_views(list@);
    let ghost ss = stmt_views(program.stmts@);
    let mut out = String::new();
    let mut run_start: usize = 0;
    let mut i: usize = 0;
    while i < program.stmts.len()
        invariant
            run_start <= i <= program.stmts@.len(),
            ss == stmt_views(program.stmts@),
            vs == info_ref_views(list@),
            program_state(ss, i as nat, vs) == (out@, ss.subrange(run_start as int, i as int)),
        decreases program.stmts.len() - i,
    {
        let ghost before = out@;
        let is_def = match &program.stmts[i] {
            Stmt::FuncDef { .. } => true,
            _ => false,
        };
        proof {
            assert(ss[i as int] == program.stmts@[i as int]@);
        }
        if is_def {
            if run_start < i {
                emit_trigger_block(&program.stmts, run_start, i, &mut out, &list);
                push_char(&mut out, '\n');
            }
            emit_stmt(&program.stmts[i], &mut out, "", &list);
            push_char(&mut out, '\n');
            proof {
                reveal_strlit("");
                reveal_strlit("\n");
                assert(""@ =~= Seq::<char>::empty());
                assert(out@ =~= before + flush_text(ss.subrange(run_start as int, i as int), vs)
                    + stmt_text(ss[i as int], Seq::empty(), vs) + seq!['\n']);
                assert(ss.subrange(i + 1, i + 1) =~= Seq::<StmtV>::empty());
            }
            run_start = i + 1;
        } else {
            proof {
                assert(ss.subrange(run_start as int, i + 1) =~= ss.subrange(run_start as int, i as int).push(ss[i as int]));
            }
        }
        i = i + 1;
    }
    let ghost before = out@;
    if run_start < i {
        emit_trigger_block(&program.stmts, run_start, i, &mut out, &list);
        push_char(&mut out, '\n');
        proof {
            reveal_strlit("\n");
        }
    }
    proof {
        assert(out@ =~= before + flush_text(ss.subrange(run_start as int, i as int), vs));
        assert(out@ == program_text(ss, vs));
        assert(lists_vars(vs, vars@) && out@ == program_text(ss, vs));
    }
    Ok(out)
}

} // verus!
