//! From the syntax tree of a source file to the intermediate representation.
//!
//! The tree holds, as plain values, the parts of Rust syntax that the source
//! language uses: functions and statics at the top level, `let`, assignment,
//! `if`, `while`, `loop`, `for` and `return` in bodies, and literals, paths,
//! calls, unary and binary operators and ranges in expressions. Functions
//! whose names start with `when_` are triggers.

use vstd::prelude::*;
use crate::block::names::{sanitize_ident, sanitized};
use crate::deparse::agrees;
use crate::error::{Error, ErrorKind};
use crate::ir::{BinOp, Expr, ExprV, FuncRef, ParamKind, Program, ReturnType, Stmt, StmtV, UnaryOp, VarRef, VarScope, expr_views, stmt_views};
use crate::text::{parse_i64, parsed_int, push_str, str_is, char_at, char_len};
use crate::var::VarKind;

verus! {

// ---------------------------------------------------------------------------
// The syntax tree
// ---------------------------------------------------------------------------

/// A literal.
#[derive(Debug)]
pub enum SynLit {
    /// An integer literal, by its decimal digits.
    Int(String),
    /// A floating-point literal, by its decimal text.
    Float(String),
    Str(String),
    Bool(bool),
    /// Any other literal (a character, a byte string, ...).
    Other,
}

/// A binary operator.
#[derive(Debug, Clone, Copy, PartialEq, Eq, Structural)]
pub enum SynBinOp {
    Add,
    Sub,
    Mul,
    Div,
    Rem,
    And,
    Or,
    Eq,
    Lt,
    Le,
    Ne,
    Ge,
    Gt,
    /// A bit operator, a shift or a compound assignment.
    Other,
}

/// A unary operator.
#[derive(Debug, Clone, Copy, PartialEq, Eq, Structural)]
pub enum SynUnOp {
    Not,
    Neg,
    /// Dereference.
    Other,
}

/// A type: a path by its segments, a reference, or anything else.
#[derive(Debug)]
pub enum SynType {
    Path(Vec<String>),
    Ref(Box<SynType>),
    Other,
}

/// A pattern: a name, `_`, or anything else.
#[derive(Debug)]
pub enum SynPat {
    Ident(String),
    Wild,
    Other,
}

/// An expression.
#[derive(Debug)]
pub enum SynExpr {
    Lit(SynLit),
    Binary(SynBinOp, Box<SynExpr>, Box<SynExpr>),
    Unary(SynUnOp, Box<SynExpr>),
    /// A call: the called expression and the arguments.
    Call(Box<SynExpr>, Vec<SynExpr>),
    /// A path, by its segments.
    Path(Vec<String>),
    Paren(Box<SynExpr>),
    /// A range with its optional ends.
    Range(Option<Box<SynExpr>>, Option<Box<SynExpr>>),
    Reference(Box<SynExpr>),
    Assign(Box<SynExpr>, Box<SynExpr>),
    /// `if`: condition, then-block, and the `else` branch (a block or an `if`).
    If(Box<SynExpr>, Vec<SynStmt>, Option<Box<SynExpr>>),
    While(Box<SynExpr>, Vec<SynStmt>),
    Loop(Vec<SynStmt>),
    ForLoop(SynPat, Box<SynExpr>, Vec<SynStmt>),
    Block(Vec<SynStmt>),
    Break,
    Continue,
    Return(Option<Box<SynExpr>>),
    /// Any other expression, with the line it starts on.
    Other(usize),
}

/// A statement of a body.
#[derive(Debug)]
pub enum SynStmt {
    /// `let`: its pattern, the type written after `:`, and the initial value.
    Local(SynPat, Option<SynType>, Option<SynExpr>),
    Expr(SynExpr),
    /// An item or a macro in a body.
    Other,
}

/// A function parameter.
#[derive(Debug)]
pub enum SynFnArg {
    /// `self`, in any form.
    Receiver,
    Typed(SynPat, SynType),
}

/// A top-level item.
#[derive(Debug)]
pub enum SynItem {
    /// A function: name, parameters, return type, body.
    Fn(String, Vec<SynFnArg>, Option<SynType>, Vec<SynStmt>),
    /// `static NAME: TYPE = EXPR;`
    Static(String, SynType, SynExpr),
    Const,
    Other,
}

/// A source file.
#[derive(Debug)]
pub struct SourceFile {
    pub items: Vec<SynItem>,
}

/// A trigger function: its name, parameter names and body. It becomes one
/// thread of an object's script.
#[derive(Debug)]
pub struct TriggerDef {
    pub name: String,
    /// For `when_message`, the first is the message name.
    pub params: Vec<String>,
    pub body: Vec<Stmt>,
}

/// Model of a trigger function.
pub struct TriggerV {
    pub name: Seq<char>,
    pub params: Seq<Seq<char>>,
    pub body: Seq<StmtV>,
}

impl View for TriggerDef {
    type V = TriggerV;

    open spec fn view(&self) -> TriggerV {
        TriggerV {
            name: self.name@,
            params: self.params@.map_values(|s: String| s@),
            body: stmt_views(self.body@),
        }
    }
}

pub open spec fn trigger_views(v: Seq<TriggerDef>) -> Seq<TriggerV> {
    v.map_values(|t: TriggerDef| t@)
}

// ---------------------------------------------------------------------------
// Model of the reading
// ---------------------------------------------------------------------------

/// How a binary operator of the syntax tree is written in Rust source.
pub open spec fn syn_op_symbol(op: SynBinOp) -> Seq<char> {
    match op {
        SynBinOp::Add => "+"@,
        SynBinOp::Sub => "-"@,
        SynBinOp::Mul => "*"@,
        SynBinOp::Div => "/"@,
        SynBinOp::Rem => "%"@,
        SynBinOp::And => "&&"@,
        SynBinOp::Or => "||"@,
        SynBinOp::Eq => "=="@,
        SynBinOp::Lt => "<"@,
        SynBinOp::Le => "<="@,
        SynBinOp::Ne => "!="@,
        SynBinOp::Ge => ">="@,
        SynBinOp::Gt => ">"@,
        SynBinOp::Other => seq![],
    }
}

pub open spec fn bin_op(op: SynBinOp) -> Option<BinOp> {
    match op {
        SynBinOp::Add => Some(BinOp::Add),
        SynBinOp::Sub => Some(BinOp::Sub),
        SynBinOp::Mul => Some(BinOp::Mul),
        SynBinOp::Div => Some(BinOp::Div),
        SynBinOp::Rem => Some(BinOp::Mod),
        SynBinOp::And => Some(BinOp::And),
        SynBinOp::Or => Some(BinOp::Or),
        SynBinOp::Eq => Some(BinOp::Eq),
        SynBinOp::Lt => Some(BinOp::Lt),
        SynBinOp::Le => Some(BinOp::Le),
        SynBinOp::Ne => Some(BinOp::Ne),
        SynBinOp::Ge => Some(BinOp::Ge),
        SynBinOp::Gt => Some(BinOp::Gt),
        SynBinOp::Other => None,
    }
}

pub open spec fn un_op(op: SynUnOp) -> Option<UnaryOp> {
    match op {
        SynUnOp::Not => Some(UnaryOp::Not),
        SynUnOp::Neg => Some(UnaryOp::Neg),
        SynUnOp::Other => None,
    }
}

pub open spec fn segments(p: Seq<String>) -> Seq<Seq<char>> {
    p.map_values(|s: String| s@)
}

pub open spec fn lit_expr(l: SynLit) -> Result<ExprV, ErrorKind> {
    match l {
        SynLit::Int(d) => match parsed_int(d@) {
            Some(i) => if i64::MIN <= i <= i64::MAX {
                Ok(ExprV::Int(i))
            } else {
                Err(ErrorKind::Parse)
            },
            None => Err(ErrorKind::Parse),
        },
        SynLit::Float(t) => Ok(ExprV::Float(t@)),
        SynLit::Str(s) => Ok(ExprV::Str(s@)),
        SynLit::Bool(b) => Ok(ExprV::Bool(b)),
        SynLit::Other => Err(ErrorKind::Parse),
    }
}

/// The expression that a syntax expression stands for.
pub open spec fn conv_expr(e: SynExpr) -> Result<ExprV, ErrorKind>
    decreases e, 1int, 0int,
{
    match e {
        SynExpr::Lit(l) => lit_expr(l),
        SynExpr::Binary(op, l, r) => match bin_op(op) {
            None => Err(ErrorKind::Parse),
            Some(o) => match conv_expr(*l) {
                Err(k) => Err(k),
                Ok(a) => match conv_expr(*r) {
                    Err(k) => Err(k),
                    Ok(b) => Ok(ExprV::BinOp(o, Box::new(a), Box::new(b))),
                },
            },
        },
        SynExpr::Unary(op, x) => match un_op(op) {
            None => Err(ErrorKind::Parse),
            Some(o) => match conv_expr(*x) {
                Err(k) => Err(k),
                Ok(a) => Ok(ExprV::UnaryOp(o, Box::new(a))),
            },
        },
        SynExpr::Call(f, args) => match *f {
            SynExpr::Path(p) => if p@.len() == 0 {
                Err(ErrorKind::Parse)
            } else {
                match conv_args(args@, args@.len()) {
                    Err(k) => Err(k),
                    Ok(a) => Ok(ExprV::Call(p@.last()@, a.len(), a)),
                }
            },
            _ => Err(ErrorKind::Parse),
        },
        SynExpr::Path(p) => if p@.len() == 0 {
            Err(ErrorKind::Parse)
        } else if p@.len() == 1 {
            Ok(ExprV::Var(p@[0]@))
        } else {
            Ok(ExprV::Path(segments(p@)))
        },
        SynExpr::Paren(x) => conv_expr(*x),
        SynExpr::Range(a, b) => match (a, b) {
            (Some(x), Some(y)) => match conv_expr(*x) {
                Err(k) => Err(k),
                Ok(s) => match conv_expr(*y) {
                    Err(k) => Err(k),
                    Ok(t) => Ok(ExprV::Range(Box::new(s), Box::new(t))),
                },
            },
            _ => Err(ErrorKind::Parse),
        },
        SynExpr::Reference(x) => conv_expr(*x),
        _ => Err(ErrorKind::Parse),
    }
}

/// The first `n` arguments.
pub open spec fn conv_args(args: Seq<SynExpr>, n: nat) -> Result<Seq<ExprV>, ErrorKind>
    decreases args, 0int, n,
{
    if n == 0 || n > args.len() {
        Ok(seq![])
    } else {
        match conv_args(args, (n - 1) as nat) {
            Err(k) => Err(k),
            Ok(p) => match conv_expr(args[n - 1]) {
                Err(k) => Err(k),
                Ok(a) => Ok(p.push(a)),
            },
        }
    }
}

/// The last segment of a type's path, looking through nothing.
pub open spec fn path_tail(t: SynType) -> Option<Seq<char>> {
    match t {
        SynType::Path(p) => if p@.len() > 0 {
            Some(p@.last()@)
        } else {
            None
        },
        _ => None,
    }
}

/// The variable kind that a `let` type names: `Ok(None)` for no special
/// kind, an error for an unknown type name.
pub open spec fn local_kind(t: Option<SynType>) -> Result<Option<VarKind>, ErrorKind> {
    match t {
        None => Ok(None),
        Some(ty) => match path_tail(ty) {
            None => Ok(None),
            Some(n) => if n == "CloudVar"@ || n == "cloud"@ {
                Ok(Some(VarKind::Cloud))
            } else if n == "RealtimeVar"@ || n == "RealTimeVar"@ || n == "realtime"@ || n == "realTime"@ {
                Ok(Some(VarKind::RealTime))
            } else {
                Err(ErrorKind::Parse)
            },
        },
    }
}

/// The kind of a `static`: special kinds only, any other type is a plain
/// variable.
pub open spec fn static_kind(t: SynType) -> Option<VarKind> {
    match path_tail(t) {
        Some(n) => if n == "CloudVar"@ || n == "cloud"@ {
            Some(VarKind::Cloud)
        } else if n == "RealtimeVar"@ || n == "RealTimeVar"@ || n == "realtime"@ || n == "realTime"@ {
            Some(VarKind::RealTime)
        } else {
            None
        },
        None => None,
    }
}

/// The statements that one syntax statement adds.
pub open spec fn conv_stmt(s: SynStmt) -> Result<Seq<StmtV>, ErrorKind>
    decreases s, 3int, 0int,
{
    match s {
        SynStmt::Local(pat, ty, init) => match pat {
            SynPat::Ident(name) => match local_kind(ty) {
                Err(k) => Err(k),
                Ok(kind) => match init {
                    None => Ok(seq![StmtV::VarDecl(name@, ExprV::Int(0), kind, VarScope::Local)]),
                    Some(x) => match conv_expr(x) {
                        Err(k) => Err(k),
                        Ok(v) => Ok(seq![StmtV::VarDecl(name@, v, kind, VarScope::Local)]),
                    },
                },
            },
            _ => Err(ErrorKind::Parse),
        },
        SynStmt::Expr(e) => conv_expr_stmt(e),
        SynStmt::Other => Err(ErrorKind::Parse),
    }
}

/// The statements of an expression used as a statement.
pub open spec fn conv_expr_stmt(e: SynExpr) -> Result<Seq<StmtV>, ErrorKind>
    decreases e, 2int, 0int,
{
    match e {
        SynExpr::Break => Ok(seq![StmtV::Break]),
        SynExpr::Continue => Ok(seq![StmtV::Continue]),
        SynExpr::Assign(l, r) => match *l {
            SynExpr::Path(p) => if p@.len() == 0 {
                Err(ErrorKind::Parse)
            } else {
                match conv_expr(*r) {
                    Err(k) => Err(k),
                    Ok(v) => Ok(seq![StmtV::SetVar(sanitized(p@.last()@), None, v)]),
                }
            },
            _ => Err(ErrorKind::Parse),
        },
        SynExpr::If(c, t, els) => match conv_expr(*c) {
            Err(k) => Err(k),
            Ok(cond) => match conv_block(t@, t@.len()) {
                Err(k) => Err(k),
                Ok(tb) => match els {
                    None => Ok(seq![StmtV::If(cond, tb, seq![])]),
                    Some(x) => match *x {
                        SynExpr::Block(b) => match conv_block(b@, b@.len()) {
                            Err(k) => Err(k),
                            Ok(eb) => Ok(seq![StmtV::If(cond, tb, eb)]),
                        },
                        SynExpr::If(..) => match conv_expr_stmt(*x) {
                            Err(k) => Err(k),
                            Ok(eb) => Ok(seq![StmtV::If(cond, tb, eb)]),
                        },
                        _ => Err(ErrorKind::Parse),
                    },
                },
            },
        },
        SynExpr::While(c, b) => match conv_expr(*c) {
            Err(k) => Err(k),
            Ok(cond) => match conv_block(b@, b@.len()) {
                Err(k) => Err(k),
                Ok(body) => Ok(seq![StmtV::While(cond, body)]),
            },
        },
        SynExpr::Loop(b) => match conv_block(b@, b@.len()) {
            Err(k) => Err(k),
            Ok(body) => Ok(seq![StmtV::Loop(body)]),
        },
        SynExpr::ForLoop(pat, it, b) => match for_var(pat) {
            None => Err(ErrorKind::Parse),
            Some(v) => match conv_expr(*it) {
                Err(k) => Err(k),
                Ok(iter) => match conv_block(b@, b@.len()) {
                    Err(k) => Err(k),
                    Ok(body) => Ok(seq![StmtV::For(v, iter, body)]),
                },
            },
        },
        SynExpr::Return(x) => match x {
            None => Ok(seq![StmtV::Return(ExprV::Int(0))]),
            Some(y) => match conv_expr(*y) {
                Err(k) => Err(k),
                Ok(v) => Ok(seq![StmtV::Return(v)]),
            },
        },
        _ => match conv_expr(e) {
            Err(k) => Err(k),
            Ok(v) => Ok(seq![StmtV::Expr(v)]),
        },
    }
}

pub open spec fn for_var(p: SynPat) -> Option<Seq<char>> {
    match p {
        SynPat::Ident(n) => Some(sanitized(n@)),
        SynPat::Wild => Some("_"@),
        SynPat::Other => None,
    }
}

/// The statements of the first `n` syntax statements of a block.
pub open spec fn conv_block(b: Seq<SynStmt>, n: nat) -> Result<Seq<StmtV>, ErrorKind>
    decreases b, 1int, n,
{
    if n == 0 || n > b.len() {
        Ok(seq![])
    } else {
        match conv_block(b, (n - 1) as nat) {
            Err(k) => Err(k),
            Ok(p) => match conv_stmt(b[n - 1]) {
                Err(k) => Err(k),
                Ok(s) => Ok(p + s),
            },
        }
    }
}

pub open spec fn param_kind(t: SynType) -> ParamKind {
    match path_tail(t) {
        Some(n) => if n == "BoolParam"@ || n == "bool"@ {
            ParamKind::Bool
        } else {
            ParamKind::String
        },
        None => ParamKind::String,
    }
}

/// The named parameters of the first `n` arguments; `self` is skipped and
/// a pattern is named `_pattern`.
pub open spec fn params_of(args: Seq<SynFnArg>, n: nat) -> Seq<(Seq<char>, ParamKind)>
    decreases n,
{
    if n == 0 || n > args.len() {
        seq![]
    } else {
        let p = params_of(args, (n - 1) as nat);
        match args[n - 1] {
            SynFnArg::Receiver => p,
            SynFnArg::Typed(SynPat::Ident(name), t) => p.push((name@, param_kind(t))),
            SynFnArg::Typed(_, t) => p.push(("_pattern"@, ParamKind::String)),
        }
    }
}

/// The kind of value a function returns, from its return type.
pub open spec fn return_kind(t: Option<SynType>) -> Option<ReturnType> {
    match t {
        None => None,
        Some(ty) => Some(value_kind(ty)),
    }
}

pub open spec fn value_kind(t: SynType) -> ReturnType
    decreases t,
{
    match t {
        SynType::Ref(inner) => value_kind(*inner),
        _ => match path_tail(t) {
            Some(n) => if n == "String"@ || n == "str"@ {
                ReturnType::String
            } else if n == "bool"@ || n == "Bool"@ {
                ReturnType::Boolean
            } else {
                ReturnType::Number
            },
            None => ReturnType::Number,
        },
    }
}

pub open spec fn is_trigger_name(name: Seq<char>) -> bool {
    name.len() >= 5 && name.take(5) == "when_"@
}

/// What one item adds: the statements of the program and, when triggers are
/// kept apart, the triggers.
pub open spec fn conv_item(it: SynItem, split: bool) -> Result<(Seq<StmtV>, Seq<TriggerV>), ErrorKind> {
    match it {
        SynItem::Fn(name, args, ret, body) => match conv_block(body@, body@.len()) {
            Err(k) => Err(k),
            Ok(b) => if is_trigger_name(name@) {
                if split {
                    let ps = params_of(args@, args@.len());
                    Ok((seq![], seq![TriggerV { name: name@, params: ps.map_values(|p: (Seq<char>, ParamKind)| p.0), body: b }]))
                } else {
                    Ok((b, seq![]))
                }
            } else {
                Ok((seq![StmtV::FuncDef(name@, params_of(args@, args@.len()), return_kind(ret), b)], seq![]))
            },
        },
        SynItem::Static(name, ty, x) => if name@.len() == 0 {
            Err(ErrorKind::Parse)
        } else {
            match conv_expr(x) {
                Err(k) => Err(k),
                Ok(v) => Ok((seq![StmtV::VarDecl(name@, v, static_kind(ty), VarScope::Global)], seq![])),
            }
        },
        SynItem::Const => Err(ErrorKind::Parse),
        SynItem::Other => Err(ErrorKind::Parse),
    }
}

/// The program and triggers of the first `n` items.
pub open spec fn conv_items(items: Seq<SynItem>, n: nat, split: bool) -> Result<(Seq<StmtV>, Seq<TriggerV>), ErrorKind>
    decreases n,
{
    if n == 0 || n > items.len() {
        Ok((seq![], seq![]))
    } else {
        match conv_items(items, (n - 1) as nat, split) {
            Err(k) => Err(k),
            Ok((s, t)) => match conv_item(items[n - 1], split) {
                Err(k) => Err(k),
                Ok((s2, t2)) => Ok((s + s2, t + t2)),
            },
        }
    }
}

// ---------------------------------------------------------------------------
// Reading
// ---------------------------------------------------------------------------

fn unsupported(what: &str) -> (e: Error)
    ensures
        e.kind() == ErrorKind::Parse,
{
    let mut m = String::new();
    push_str(&mut m, "unsupported ");
    push_str(&mut m, what);
    Error::Parse(m)
}

fn convert_lit(l: &SynLit) -> (r: crate::error::Result<Expr>)
    ensures
        agrees(r, lit_expr(*l), |x: Expr| x@),
{
    match l {
        SynLit::Int(d) => match parse_i64(d.as_str()) {
            Some(i) => Ok(Expr::Int(i)),
            None => Err(unsupported("int literal")),
        },
        SynLit::Float(t) => Ok(Expr::Float(t.clone())),
        SynLit::Str(x) => Ok(Expr::Str(x.clone())),
        SynLit::Bool(b) => Ok(Expr::Bool(*b)),
        SynLit::Other => Err(unsupported("literal")),
    }
}

fn bin_op_of(op: SynBinOp) -> (r: Option<BinOp>)
    ensures
        r == bin_op(op),
{
    match op {
        SynBinOp::Add => Some(BinOp::Add),
        SynBinOp::Sub => Some(BinOp::Sub),
        SynBinOp::Mul => Some(BinOp::Mul),
        SynBinOp::Div => Some(BinOp::Div),
        SynBinOp::Rem => Some(BinOp::Mod),
        SynBinOp::And => Some(BinOp::And),
        SynBinOp::Or => Some(BinOp::Or),
        SynBinOp::Eq => Some(BinOp::Eq),
        SynBinOp::Lt => Some(BinOp::Lt),
        SynBinOp::Le => Some(BinOp::Le),
        SynBinOp::Ne => Some(BinOp::Ne),
        SynBinOp::Ge => Some(BinOp::Ge),
        SynBinOp::Gt => Some(BinOp::Gt),
        SynBinOp::Other => None,
    }
}

fn copy_strings(p: &Vec<String>) -> (r: Vec<String>)
    ensures
        segments(r@) == segments(p@),
{
    let mut out: Vec<String> = Vec::new();
    let mut i: usize = 0;
    while i < p.len()
        invariant
            i <= p.len(),
            segments(out@) == segments(p@).take(i as int),
        decreases p.len() - i,
    {
        let ghost before = segments(out@);
        let c = crate::text::owned(p[i].as_str());
        out.push(c);
        proof {
            assert(segments(out@) =~= before.push(c@));
            assert(segments(p@).take(i + 1) =~= segments(p@).take(i as int).push(p@[i as int]@));
        }
        i = i + 1;
    }
    proof {
        assert(segments(p@).take(i as int) =~= segments(p@));
    }
    out
}

/// The expression that a syntax expression stands for.
pub fn convert_expr(e: &SynExpr) -> (r: crate::error::Result<Expr>)
    ensures
        agrees(r, conv_expr(*e), |x: Expr| x@),
    decreases *e, 1int, 0int,
{
    match e {
        SynExpr::Lit(l) => convert_lit(l),
        SynExpr::Binary(op, l, r) => {
            let o = match bin_op_of(*op) {
                Some(o) => o,
                None => return Err(unsupported("binary operator")),
            };
            let a = match convert_expr(l) {
                Ok(a) => a,
                Err(k) => return Err(k),
            };
            let b = match convert_expr(r) {
                Ok(b) => b,
                Err(k) => return Err(k),
            };
            Ok(Expr::BinOp(o, Box::new(a), Box::new(b)))
        },
        SynExpr::Unary(op, x) => {
            let o = match op {
                SynUnOp::Not => UnaryOp::Not,
                SynUnOp::Neg => UnaryOp::Neg,
                SynUnOp::Other => return Err(unsupported("unary operator")),
            };
            match convert_expr(x) {
                Ok(a) => Ok(Expr::UnaryOp(o, Box::new(a))),
                Err(k) => Err(k),
            }
        },
        SynExpr::Call(f, args) => {
            let name = match &**f {
                SynExpr::Path(p) => {
                    if p.len() == 0 {
                        return Err(unsupported("empty path"));
                    }
                    p[p.len() - 1].clone()
                },
                _ => return Err(unsupported("called expression")),
            };
            proof {
                let ev = *e;
                assert(decreases_to!(ev => ev->Call_1));
            }
            let a = match convert_args(args) {
                Ok(a) => a,
                Err(k) => return Err(k),
            };
            proof {
                crate::ir::lemma_call_view(FuncRef { name, arity: a.len() }, a);
            }
            Ok(Expr::Call(FuncRef { name, arity: a.len() }, a))
        },
        SynExpr::Path(p) => {
            if p.len() == 0 {
                Err(unsupported("empty path"))
            } else if p.len() == 1 {
                Ok(Expr::Var(p[0].clone()))
            } else {
                Ok(Expr::Path(copy_strings(p)))
            }
        },
        SynExpr::Paren(x) => convert_expr(x),
        SynExpr::Range(a, b) => match (a, b) {
            (Some(x), Some(y)) => {
                let s = match convert_expr(x) {
                    Ok(s) => s,
                    Err(k) => return Err(k),
                };
                match convert_expr(y) {
                    Ok(t) => Ok(Expr::Range(Box::new(s), Box::new(t))),
                    Err(k) => Err(k),
                }
            },
            _ => Err(unsupported("open range")),
        },
        SynExpr::Reference(x) => convert_expr(x),
        SynExpr::Assign(..) => Err(unsupported("assignment as a value")),
        SynExpr::Other(line) => {
            let mut m = String::new();
            push_str(&mut m, "unsupported expression at line ");
            push_str(&mut m, crate::text::usize_string(*line).as_str());
            Err(Error::Parse(m))
        },
        _ => Err(unsupported("expression")),
    }
}

fn convert_args(args: &Vec<SynExpr>) -> (r: crate::error::Result<Vec<Expr>>)
    ensures
        agrees(r, conv_args(args@, args@.len()), |v: Vec<Expr>| expr_views(v@)),
    decreases args@, 0int, args@.len(),
{
    let mut out: Vec<Expr> = Vec::new();
    let mut i: usize = 0;
    proof {
        assert(expr_views(out@) =~= Seq::<ExprV>::empty());
    }
    while i < args.len()
        invariant
            i <= args.len(),
            conv_args(args@, i as nat) == Ok::<Seq<ExprV>, ErrorKind>(expr_views(out@)),
        decreases args.len() - i,
    {
        proof {
            assert(decreases_to!(args@ => args@[i as int]));
        }
        match convert_expr(&args[i]) {
            Ok(x) => {
                let ghost before = expr_views(out@);
                out.push(x);
                proof {
                    assert(expr_views(out@) =~= before.push(x@));
                }
            },
            Err(k) => {
                proof {
                    lemma_args_err(args@, (i + 1) as nat, args@.len());
                }
                return Err(k);
            },
        }
        i = i + 1;
    }
    Ok(out)
}

proof fn lemma_args_err(args: Seq<SynExpr>, a: nat, b: nat)
    requires
        a <= b <= args.len(),
        conv_args(args, a) is Err,
    ensures
        conv_args(args, b) == conv_args(args, a),
    decreases b,
{
    if a < b {
        lemma_args_err(args, a, (b - 1) as nat);
    }
}

proof fn lemma_block_err(b: Seq<SynStmt>, x: nat, y: nat)
    requires
        x <= y <= b.len(),
        conv_block(b, x) is Err,
    ensures
        conv_block(b, y) == conv_block(b, x),
    decreases y,
{
    if x < y {
        lemma_block_err(b, x, (y - 1) as nat);
    }
}

fn path_tail_of(t: &SynType) -> (r: Option<&String>)
    ensures
        match r {
            Some(n) => path_tail(*t) == Some(n@),
            None => path_tail(*t) is None,
        },
{
    match t {
        SynType::Path(p) => {
            if p.len() > 0 {
                Some(&p[p.len() - 1])
            } else {
                None
            }
        },
        _ => None,
    }
}

fn is_cloud(n: &str) -> (r: bool)
    ensures
        r == (n@ == "CloudVar"@ || n@ == "cloud"@),
{
    str_is(n, "CloudVar") || str_is(n, "cloud")
}

fn is_realtime(n: &str) -> (r: bool)
    ensures
        r == (n@ == "RealtimeVar"@ || n@ == "RealTimeVar"@ || n@ == "realtime"@ || n@ == "realTime"@),
{
    str_is(n, "RealtimeVar") || str_is(n, "RealTimeVar") || str_is(n, "realtime") || str_is(n, "realTime")
}

fn local_kind_of(t: &Option<SynType>) -> (r: crate::error::Result<Option<VarKind>>)
    ensures
        agrees(r, local_kind(*t), |k: Option<VarKind>| k),
{
    match t {
        None => Ok(None),
        Some(ty) => match path_tail_of(ty) {
            None => Ok(None),
            Some(n) => {
                if is_cloud(n.as_str()) {
                    Ok(Some(VarKind::Cloud))
                } else if is_realtime(n.as_str()) {
                    Ok(Some(VarKind::RealTime))
                } else {
                    let mut m = String::new();
                    push_str(&mut m, "unknown var type: ");
                    push_str(&mut m, n.as_str());
                    Err(Error::Parse(m))
                }
            },
        },
    }
}

fn one(s: Stmt) -> (r: Vec<Stmt>)
    ensures
        stmt_views(r@) == seq![s@],
{
    let v = vec![s];
    proof {
        assert(stmt_views(v@) =~= seq![s@]);
    }
    v
}

/// The statements that one syntax statement adds.
pub fn convert_stmt(s: &SynStmt) -> (r: crate::error::Result<Vec<Stmt>>)
    ensures
        agrees(r, conv_stmt(*s), |v: Vec<Stmt>| stmt_views(v@)),
    decreases *s, 3int, 0int,
{
    match s {
        SynStmt::Local(pat, ty, init) => {
            let name = match pat {
                SynPat::Ident(n) => n,
                _ => return Err(unsupported("destructuring pattern")),
            };
            let kind = match local_kind_of(ty) {
                Ok(k) => k,
                Err(k) => return Err(k),
            };
            let v = match init {
                None => Expr::Int(0),
                Some(x) => match convert_expr(x) {
                    Ok(v) => v,
                    Err(k) => return Err(k),
                },
            };
            Ok(one(Stmt::VarDecl(name.clone(), v, kind, VarScope::Local)))
        },
        SynStmt::Expr(e) => convert_expr_stmt(e),
        SynStmt::Other => Err(unsupported("statement")),
    }
}

fn convert_expr_stmt(e: &SynExpr) -> (r: crate::error::Result<Vec<Stmt>>)
    ensures
        agrees(r, conv_expr_stmt(*e), |v: Vec<Stmt>| stmt_views(v@)),
    decreases *e, 2int, 0int,
{
    let ghost ev = *e;
    match e {
        SynExpr::Break => Ok(one(Stmt::Break)),
        SynExpr::Continue => Ok(one(Stmt::Continue)),
        SynExpr::Assign(l, r) => {
            let name = match &**l {
                SynExpr::Path(p) => {
                    if p.len() == 0 {
                        return Err(unsupported("assignment target"));
                    }
                    sanitize_ident(p[p.len() - 1].as_str())
                },
                _ => return Err(unsupported("assignment target")),
            };
            match convert_expr(r) {
                Ok(v) => Ok(one(Stmt::SetVar(VarRef { name, id: None }, v))),
                Err(k) => Err(k),
            }
        },
        SynExpr::If(c, t, els) => {
            proof {
                assert(decreases_to!(ev => ev->If_1));
            }
            let cond = match convert_expr(c) {
                Ok(x) => x,
                Err(k) => return Err(k),
            };
            let tb = match convert_block(t) {
                Ok(x) => x,
                Err(k) => return Err(k),
            };
            let eb = match els {
                None => {
                    let v: Vec<Stmt> = Vec::new();
                    proof {
                        assert(stmt_views(v@) =~= Seq::<StmtV>::empty());
                    }
                    v
                },
                Some(x) => match &**x {
                    SynExpr::Block(b) => {
                        proof {
                            let xv = **x;
                            assert(decreases_to!(xv => xv->Block_0));
                        }
                        match convert_block(b) {
                            Ok(y) => y,
                            Err(k) => return Err(k),
                        }
                    },
                    SynExpr::If(..) => match convert_expr_stmt(x) {
                        Ok(y) => y,
                        Err(k) => return Err(k),
                    },
                    _ => return Err(unsupported("else branch")),
                },
            };
            proof {
                crate::ir::lemma_body_view(tb);
                crate::ir::lemma_body_view(eb);
            }
            Ok(one(Stmt::If { cond, then_body: tb, else_body: eb }))
        },
        SynExpr::While(c, b) => {
            proof {
                assert(decreases_to!(ev => ev->While_1));
            }
            let cond = match convert_expr(c) {
                Ok(x) => x,
                Err(k) => return Err(k),
            };
            let body = match convert_block(b) {
                Ok(x) => x,
                Err(k) => return Err(k),
            };
            proof {
                crate::ir::lemma_body_view(body);
            }
            Ok(one(Stmt::While { cond, body }))
        },
        SynExpr::Loop(b) => {
            proof {
                assert(decreases_to!(ev => ev->Loop_0));
            }
            let body = match convert_block(b) {
                Ok(x) => x,
                Err(k) => return Err(k),
            };
            proof {
                crate::ir::lemma_body_view(body);
            }
            Ok(one(Stmt::Loop { body }))
        },
        SynExpr::ForLoop(pat, it, b) => {
            proof {
                assert(decreases_to!(ev => ev->ForLoop_2));
            }
            let var = match pat {
                SynPat::Ident(n) => sanitize_ident(n.as_str()),
                SynPat::Wild => "_".to_owned(),
                SynPat::Other => return Err(unsupported("loop pattern")),
            };
            let iter = match convert_expr(it) {
                Ok(x) => x,
                Err(k) => return Err(k),
            };
            let body = match convert_block(b) {
                Ok(x) => x,
                Err(k) => return Err(k),
            };
            proof {
                crate::ir::lemma_body_view(body);
            }
            Ok(one(Stmt::For { var, iter, body }))
        },
        SynExpr::Return(x) => match x {
            None => Ok(one(Stmt::Return(Expr::Int(0)))),
            Some(y) => match convert_expr(y) {
                Ok(v) => Ok(one(Stmt::Return(v))),
                Err(k) => Err(k),
            },
        },
        _ => match convert_expr(e) {
            Ok(v) => Ok(one(Stmt::Expr(v))),
            Err(k) => Err(k),
        },
    }
}

/// The statements of a block.
pub fn convert_block(b: &Vec<SynStmt>) -> (r: crate::error::Result<Vec<Stmt>>)
    ensures
        agrees(r, conv_block(b@, b@.len()), |v: Vec<Stmt>| stmt_views(v@)),
    decreases b@, 1int, b@.len(),
{
    let mut out: Vec<Stmt> = Vec::new();
    let mut i: usize = 0;
    proof {
        assert(stmt_views(out@) =~= Seq::<StmtV>::empty());
    }
    while i < b.len()
        invariant
            i <= b.len(),
            conv_block(b@, i as nat) == Ok::<Seq<StmtV>, ErrorKind>(stmt_views(out@)),
        decreases b.len() - i,
    {
        proof {
            assert(decreases_to!(b@ => b@[i as int]));
        }
        match convert_stmt(&b[i]) {
            Ok(mut more) => {
                let ghost before = stmt_views(out@);
                let ghost added = stmt_views(more@);
                out.append(&mut more);
                proof {
                    assert(stmt_views(out@) =~= before + added);
                }
            },
            Err(k) => {
                proof {
                    lemma_block_err(b@, (i + 1) as nat, b@.len());
                }
                return Err(k);
            },
        }
        i = i + 1;
    }
    Ok(out)
}

fn param_kind_of(t: &SynType) -> (r: ParamKind)
    ensures
        r == param_kind(*t),
{
    match path_tail_of(t) {
        Some(n) => {
            if str_is(n.as_str(), "BoolParam") || str_is(n.as_str(), "bool") {
                ParamKind::Bool
            } else {
                ParamKind::String
            }
        },
        None => ParamKind::String,
    }
}

pub open spec fn param_views(v: Seq<(String, ParamKind)>) -> Seq<(Seq<char>, ParamKind)> {
    v.map_values(|p: (String, ParamKind)| (p.0@, p.1))
}

/// The named parameters of a function; `self` is skipped.
pub fn collect_params(args: &Vec<SynFnArg>) -> (r: Vec<(String, ParamKind)>)
    ensures
        param_views(r@) == params_of(args@, args@.len()),
{
    let mut out: Vec<(String, ParamKind)> = Vec::new();
    let mut i: usize = 0;
    proof {
        assert(param_views(out@) =~= Seq::<(Seq<char>, ParamKind)>::empty());
    }
    while i < args.len()
        invariant
            i <= args.len(),
            param_views(out@) == params_of(args@, i as nat),
        decreases args.len() - i,
    {
        let ghost before = param_views(out@);
        match &args[i] {
            SynFnArg::Receiver => {},
            SynFnArg::Typed(SynPat::Ident(name), t) => {
                let n = crate::text::owned(name.as_str());
                out.push((n, param_kind_of(t)));
                proof {
                    assert(param_views(out@) =~= before.push((name@, param_kind(*t))));
                }
            },
            SynFnArg::Typed(_, _) => {
                let n = "_pattern".to_owned();
                out.push((n, ParamKind::String));
                proof {
                    assert(param_views(out@) =~= before.push(("_pattern"@, ParamKind::String)));
                }
            },
        }
        i = i + 1;
    }
    out
}

fn value_kind_of(t: &SynType) -> (r: ReturnType)
    ensures
        r == value_kind(*t),
    decreases *t,
{
    match t {
        SynType::Ref(inner) => value_kind_of(inner),
        _ => match path_tail_of(t) {
            Some(n) => {
                if str_is(n.as_str(), "String") || str_is(n.as_str(), "str") {
                    ReturnType::String
                } else if str_is(n.as_str(), "bool") || str_is(n.as_str(), "Bool") {
                    ReturnType::Boolean
                } else {
                    ReturnType::Number
                }
            },
            None => ReturnType::Number,
        },
    }
}

pub fn starts_when(name: &str) -> (r: bool)
    ensures
        r == is_trigger_name(name@),
{
    let n = char_len(name);
    if n < 5 {
        return false;
    }
    let a = char_at(name, 0);
    let b = char_at(name, 1);
    let c = char_at(name, 2);
    let d = char_at(name, 3);
    let e = char_at(name, 4);
    proof {
        reveal_strlit("when_");
        let t = name@.take(5);
        let w = "when_"@;
        assert(t[0] == a && t[1] == b && t[2] == c && t[3] == d && t[4] == e);
        assert(w[0] == 'w' && w[1] == 'h' && w[2] == 'e' && w[3] == 'n' && w[4] == '_');
        if a == 'w' && b == 'h' && c == 'e' && d == 'n' && e == '_' {
            assert(t =~= w);
        }
    }
    a == 'w' && b == 'h' && c == 'e' && d == 'n' && e == '_'
}

fn names_only(ps: Vec<(String, ParamKind)>) -> (r: Vec<String>)
    ensures
        r@.map_values(|s: String| s@) == param_views(ps@).map_values(|p: (Seq<char>, ParamKind)| p.0),
{
    let mut out: Vec<String> = Vec::new();
    let mut i: usize = 0;
    while i < ps.len()
        invariant
            i <= ps.len(),
            out@.map_values(|s: String| s@) == param_views(ps@).map_values(|p: (Seq<char>, ParamKind)| p.0).take(i as int),
        decreases ps.len() - i,
    {
        let ghost before = out@.map_values(|s: String| s@);
        let n = crate::text::owned(ps[i].0.as_str());
        out.push(n);
        proof {
            let all = param_views(ps@).map_values(|p: (Seq<char>, ParamKind)| p.0);
            assert(out@.map_values(|s: String| s@) =~= before.push(n@));
            assert(all.take(i + 1) =~= all.take(i as int).push(all[i as int]));
            assert(all[i as int] == ps@[i as int].0@);
        }
        i = i + 1;
    }
    proof {
        assert(param_views(ps@).map_values(|p: (Seq<char>, ParamKind)| p.0).take(i as int) =~= param_views(ps@).map_values(|p: (Seq<char>, ParamKind)| p.0));
    }
    out
}

/// Adds what one item gives: its statements to `out`, and, when `split`,
/// triggers to `triggers` in place of their flattened bodies.
fn convert_item(it: &SynItem, out: &mut Vec<Stmt>, triggers: &mut Vec<TriggerDef>, split: bool) -> (r: crate::error::Result<()>)
    ensures
        match conv_item(*it, split) {
            Ok((ss, ts)) => r is Ok && stmt_views(final(out)@) == stmt_views(old(out)@) + ss
                && trigger_views(final(triggers)@) == trigger_views(old(triggers)@) + ts,
            Err(k) => r matches Err(e) && e.kind() == k,
        },
{
    let ghost so = stmt_views(out@);
    let ghost to = trigger_views(triggers@);
    match it {
        SynItem::Fn(name, args, ret, body) => {
            let mut b = match convert_block(body) {
                Ok(b) => b,
                Err(k) => return Err(k),
            };
            if starts_when(name.as_str()) {
                if split {
                    let ps = collect_params(args);
                    let t = TriggerDef { name: name.clone(), params: names_only(ps), body: b };
                    proof {
                        assert(t@.name == name@);
                    }
                    triggers.push(t);
                    proof {
                        assert(trigger_views(triggers@) =~= to.push(t@));
                        assert(stmt_views(out@) =~= so + Seq::<StmtV>::empty());
                    }
                } else {
                    let ghost added = stmt_views(b@);
                    out.append(&mut b);
                    proof {
                        assert(stmt_views(out@) =~= so + added);
                        assert(trigger_views(triggers@) =~= to + Seq::<TriggerV>::empty());
                    }
                }
            } else {
                let params = collect_params(args);
                let rt = match ret {
                    Some(t) => Some(value_kind_of(t)),
                    None => None,
                };
                proof {
                    crate::ir::lemma_body_view(b);
                }
                let f = Stmt::FuncDef { name: name.clone(), params, return_type: rt, body: b };
                out.push(f);
                proof {
                    assert(stmt_views(out@) =~= so + seq![f@]);
                    assert(trigger_views(triggers@) =~= to + Seq::<TriggerV>::empty());
                }
            }
            Ok(())
        },
        SynItem::Static(name, ty, x) => {
            if char_len(name.as_str()) == 0 {
                return Err(unsupported("static without a name"));
            }
            let v = match convert_expr(x) {
                Ok(v) => v,
                Err(k) => return Err(k),
            };
            let kind = match path_tail_of(ty) {
                Some(n) => {
                    if is_cloud(n.as_str()) {
                        Some(VarKind::Cloud)
                    } else if is_realtime(n.as_str()) {
                        Some(VarKind::RealTime)
                    } else {
                        None
                    }
                },
                None => None,
            };
            let d = Stmt::VarDecl(name.clone(), v, kind, VarScope::Global);
            out.push(d);
            proof {
                assert(stmt_views(out@) =~= so + seq![d@]);
                assert(trigger_views(triggers@) =~= to + Seq::<TriggerV>::empty());
            }
            Ok(())
        },
        SynItem::Const => Err(unsupported("const item")),
        SynItem::Other => Err(unsupported("item")),
    }
}

fn convert_items(file: &SourceFile, split: bool) -> (r: crate::error::Result<(Vec<Stmt>, Vec<TriggerDef>)>)
    ensures
        match conv_items(file.items@, file.items@.len(), split) {
            Ok((ss, ts)) => r matches Ok((s, t)) && stmt_views(s@) == ss && trigger_views(t@) == ts,
            Err(k) => r matches Err(e) && e.kind() == k,
        },
{
    let mut out: Vec<Stmt> = Vec::new();
    let mut triggers: Vec<TriggerDef> = Vec::new();
    let mut i: usize = 0;
    proof {
        assert(stmt_views(out@) =~= Seq::<StmtV>::empty());
        assert(trigger_views(triggers@) =~= Seq::<TriggerV>::empty());
    }
    while i < file.items.len()
        invariant
            i <= file.items@.len(),
            conv_items(file.items@, i as nat, split) == Ok::<(Seq<StmtV>, Seq<TriggerV>), ErrorKind>(
                (stmt_views(out@), trigger_views(triggers@)),
            ),
        decreases file.items.len() - i,
    {
        match convert_item(&file.items[i], &mut out, &mut triggers, split) {
            Ok(()) => {},
            Err(k) => {
                proof {
                    lemma_items_err(file.items@, (i + 1) as nat, file.items@.len(), split);
                }
                return Err(k);
            },
        }
        i = i + 1;
    }
    Ok((out, triggers))
}

proof fn lemma_items_err(items: Seq<SynItem>, a: nat, b: nat, split: bool)
    requires
        a <= b <= items.len(),
        conv_items(items, a, split) is Err,
    ensures
        conv_items(items, b, split) == conv_items(items, a, split),
    decreases b,
{
    if a < b {
        lemma_items_err(items, a, (b - 1) as nat, split);
    }
}

/// The program of a source file's tree; trigger bodies are flattened into it.
pub fn parse_file(file: &SourceFile) -> (r: crate::error::Result<Program>)
    ensures
        match conv_items(file.items@, file.items@.len(), false) {
            Ok((ss, _)) => r matches Ok(p) && stmt_views(p.stmts@) == ss,
            Err(k) => r matches Err(e) && e.kind() == k,
        },
{
    match convert_items(file, false) {
        Ok((stmts, _)) => Ok(Program { stmts }),
        Err(e) => Err(e),
    }
}

/// The program of a source file's tree without its triggers, and the
/// triggers.
pub fn parse_file_with_triggers(file: &SourceFile) -> (r: crate::error::Result<(Program, Vec<TriggerDef>)>)
    ensures
        match conv_items(file.items@, file.items@.len(), true) {
            Ok((ss, ts)) => r matches Ok((p, t)) && stmt_views(p.stmts@) == ss && trigger_views(t@) == ts,
            Err(k) => r matches Err(e) && e.kind() == k,
        },
{
    match convert_items(file, true) {
        Ok((stmts, triggers)) => Ok((Program { stmts }, triggers)),
        Err(e) => Err(e),
    }
}

/// The program of Rust source text (read with syn); trigger bodies are
/// flattened into it. Text that syn refuses is a `Parse` error.
pub fn parse(text: &str) -> (r: crate::error::Result<Program>)
    ensures
        match crate::syntax::syn_source(text@) {
            None => r matches Err(e) && e is Parse,
            Some(items) => match conv_items(items, items.len(), false) {
                Ok((ss, _)) => r matches Ok(p) && stmt_views(p.stmts@) == ss,
                Err(k) => r matches Err(e) && e.kind() == k,
            },
        },
{
    match crate::syntax::parse_source(text) {
        Ok(f) => parse_file(&f),
        Err(m) => Err(Error::Parse(m)),
    }
}

/// The program of Rust source text without its triggers, and the triggers.
pub fn parse_with_triggers(text: &str) -> (r: crate::error::Result<(Program, Vec<TriggerDef>)>)
    ensures
        match crate::syntax::syn_source(text@) {
            None => r matches Err(e) && e is Parse,
            Some(items) => match conv_items(items, items.len(), true) {
                Ok((ss, ts)) => r matches Ok((p, t)) && stmt_views(p.stmts@) == ss && trigger_views(t@) == ts,
                Err(k) => r matches Err(e) && e.kind() == k,
            },
        },
{
    match crate::syntax::parse_source(text) {
        Ok(f) => parse_file_with_triggers(&f),
        Err(m) => Err(Error::Parse(m)),
    }
}

} // verus!
