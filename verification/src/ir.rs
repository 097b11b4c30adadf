//! Intermediate representation between Rust-like source and Entry blocks.

use vstd::prelude::*;

use crate::block::DialogMode;
use crate::var::VarKind;

verus! {

/// Binary operators of the source language.
#[derive(Debug, Clone, Copy, PartialEq, Eq, Structural)]
pub enum BinOp {
    Add,
    Sub,
    Mul,
    Div,
    Mod,
    Eq,
    Ne,
    Lt,
    Le,
    Gt,
    Ge,
    And,
    Or,
}

/// Unary operators of the source language.
#[derive(Debug, Clone, Copy, PartialEq, Eq, Structural)]
pub enum UnaryOp {
    Neg,
    Not,
}

/// A called function: its name and the number of arguments at the call.
#[derive(Debug, Clone)]
pub struct FuncRef {
    pub name: String,
    pub arity: usize,
}

/// Expressions.
#[derive(Debug)]
pub enum Expr {
    Int(i64),
    /// A decimal literal, by its text.
    Float(String),
    Str(String),
    Bool(bool),
    Var(String),
    /// A path of two or more segments, such as `EffectType::Ghost`.
    Path(Vec<String>),
    BinOp(BinOp, Box<Expr>, Box<Expr>),
    UnaryOp(UnaryOp, Box<Expr>),
    Call(FuncRef, Vec<Expr>),
    Func(FuncRef),
    /// `start..end`.
    Range(Box<Expr>, Box<Expr>),
}

/// Model of an expression.
pub enum ExprV {
    Int(int),
    Float(Seq<char>),
    Str(Seq<char>),
    Bool(bool),
    Var(Seq<char>),
    Path(Seq<Seq<char>>),
    BinOp(BinOp, Box<ExprV>, Box<ExprV>),
    UnaryOp(UnaryOp, Box<ExprV>),
    Call(Seq<char>, nat, Seq<ExprV>),
    Func(Seq<char>, nat),
    Range(Box<ExprV>, Box<ExprV>),
}

impl View for Expr {
    type V = ExprV;

    open spec fn view(&self) -> ExprV {
        self.view_rec()
    }
}

impl Expr {
    pub open spec fn view_rec(&self) -> ExprV
        decreases self,
    {
        match self {
            Expr::Int(i) => ExprV::Int(*i as int),
            Expr::Float(t) => ExprV::Float(t@),
            Expr::Str(s) => ExprV::Str(s@),
            Expr::Bool(b) => ExprV::Bool(*b),
            Expr::Var(n) => ExprV::Var(n@),
            Expr::Path(p) => ExprV::Path(p@.map_values(|s: String| s@)),
            Expr::BinOp(op, l, r) => ExprV::BinOp(*op, Box::new(l.view_rec()), Box::new(r.view_rec())),
            Expr::UnaryOp(op, e) => ExprV::UnaryOp(*op, Box::new(e.view_rec())),
            Expr::Call(f, args) => ExprV::Call(
                f.name@,
                f.arity as nat,
                Seq::new(
                    args@.len(),
                    |i: int|
                        if 0 <= i < args@.len() {
                            proof {
                                vstd::std_specs::vec::axiom_vec_index_decreases(*args, i);
                            }
                            args@[i].view_rec()
                        } else {
                            ExprV::Int(0)
                        },
                ),
            ),
            Expr::Func(f) => ExprV::Func(f.name@, f.arity as nat),
            Expr::Range(l, r) => ExprV::Range(Box::new(l.view_rec()), Box::new(r.view_rec())),
        }
    }
}

/// Models of a sequence of expressions.
pub open spec fn expr_views(v: Seq<Expr>) -> Seq<ExprV> {
    v.map_values(|e: Expr| e@)
}

pub proof fn lemma_call_view(f: FuncRef, args: Vec<Expr>)
    ensures
        Expr::Call(f, args)@ == ExprV::Call(f.name@, f.arity as nat, expr_views(args@)),
{
    let a = Expr::Call(f, args)@->Call_2;
    assert forall|i: int| 0 <= i < args@.len() implies #[trigger] a[i] == expr_views(args@)[i] by {}
    assert(a =~= expr_views(args@));
}

/// Builds a call expression whose arity is the number of arguments.
pub fn call_of(name: String, args: Vec<Expr>) -> (r: Expr)
    ensures
        r@ == ExprV::Call(name@, args@.len(), expr_views(args@)),
{
    let f = FuncRef { name, arity: args.len() };
    proof {
        lemma_call_view(f, args);
    }
    Expr::Call(f, args)
}

/// Variable scope: `let` inside a function, `static` at the top level.
#[derive(Debug, Clone, Copy, PartialEq, Eq, Structural)]
pub enum VarScope {
    Local,
    Global,
}

/// A reference to a variable: its name and, when known, its Entry id.
#[derive(Debug, Clone)]
pub struct VarRef {
    pub name: String,
    pub id: Option<String>,
}

impl VarRef {
    pub fn new(name: &str) -> (r: VarRef)
        ensures
            r.name@ == name@,
            r.id is None,
    {
        VarRef { name: name.to_owned(), id: None }
    }

    pub fn with_id(name: &str, id: &str) -> (r: VarRef)
        ensures
            r.name@ == name@,
            r.id matches Some(i) && i@ == id@,
    {
        VarRef { name: name.to_owned(), id: Some(id.to_owned()) }
    }
}

/// Kind of a function parameter.
#[derive(Debug, Clone, Copy, PartialEq, Eq, Structural)]
pub enum ParamKind {
    String,
    Bool,
}

/// Kind of value a function returns.
#[derive(Debug, Clone, Copy, PartialEq, Eq, Structural)]
pub enum ReturnType {
    Number,
    String,
    Boolean,
}

/// Statements.
#[derive(Debug)]
pub enum Stmt {
    /// Declaration: name, initial value, explicit kind, scope.
    VarDecl(String, Expr, Option<VarKind>, VarScope),
    SetVar(VarRef, Expr),
    /// Entry's `change_variable` (adds to a variable).
    ChangeVariable { variable: VarRef, value: Expr },
    /// Entry's speech bubble.
    Dialog { value: Expr, mode: DialogMode },
    /// Entry's stop-everything block.
    StopAll,
    FuncDef {
        name: String,
        params: Vec<(String, ParamKind)>,
        return_type: Option<ReturnType>,
        body: Vec<Stmt>,
    },
    Expr(Expr),
    If { cond: Expr, then_body: Vec<Stmt>, else_body: Vec<Stmt> },
    While { cond: Expr, body: Vec<Stmt> },
    For { var: String, iter: Expr, body: Vec<Stmt> },
    Repeat { times: Expr, body: Vec<Stmt> },
    Loop { body: Vec<Stmt> },
    Return(Expr),
    Break,
    Continue,
}

/// Model of a statement.
pub enum StmtV {
    VarDecl(Seq<char>, ExprV, Option<VarKind>, VarScope),
    SetVar(Seq<char>, Option<Seq<char>>, ExprV),
    ChangeVariable(Seq<char>, Option<Seq<char>>, ExprV),
    Dialog(ExprV, DialogMode),
    StopAll,
    FuncDef(Seq<char>, Seq<(Seq<char>, ParamKind)>, Option<ReturnType>, Seq<StmtV>),
    Expr(ExprV),
    If(ExprV, Seq<StmtV>, Seq<StmtV>),
    While(ExprV, Seq<StmtV>),
    For(Seq<char>, ExprV, Seq<StmtV>),
    Repeat(ExprV, Seq<StmtV>),
    Loop(Seq<StmtV>),
    Return(ExprV),
    Break,
    Continue,
}

/// Model of an optional string.
pub open spec fn opt_view(o: Option<String>) -> Option<Seq<char>> {
    match o {
        Some(s) => Some(s@),
        None => None,
    }
}

impl View for Stmt {
    type V = StmtV;

    open spec fn view(&self) -> StmtV {
        self.view_rec()
    }
}

impl Stmt {
    pub open spec fn body_view(v: &Vec<Stmt>) -> Seq<StmtV>
        decreases v,
    {
        Seq::new(
            v@.len(),
            |i: int|
                if 0 <= i < v@.len() {
                    proof {
                        vstd::std_specs::vec::axiom_vec_index_decreases(*v, i);
                    }
                    v@[i].view_rec()
                } else {
                    StmtV::Break
                },
        )
    }

    pub open spec fn view_rec(&self) -> StmtV
        decreases self,
    {
        match self {
            Stmt::VarDecl(n, e, k, s) => StmtV::VarDecl(n@, e@, *k, *s),
            Stmt::SetVar(r, e) => StmtV::SetVar(r.name@, opt_view(r.id), e@),
            Stmt::ChangeVariable { variable, value } => StmtV::ChangeVariable(
                variable.name@,
                opt_view(variable.id),
                value@,
            ),
            Stmt::Dialog { value, mode } => StmtV::Dialog(value@, *mode),
            Stmt::StopAll => StmtV::StopAll,
            Stmt::FuncDef { name, params, return_type, body } => StmtV::FuncDef(
                name@,
                params@.map_values(|p: (String, ParamKind)| (p.0@, p.1)),
                *return_type,
                Stmt::body_view(body),
            ),
            Stmt::Expr(e) => StmtV::Expr(e@),
            Stmt::If { cond, then_body, else_body } => StmtV::If(
                cond@,
                Stmt::body_view(then_body),
                Stmt::body_view(else_body),
            ),
            Stmt::While { cond, body } => StmtV::While(cond@, Stmt::body_view(body)),
            Stmt::For { var, iter, body } => StmtV::For(var@, iter@, Stmt::body_view(body)),
            Stmt::Repeat { times, body } => StmtV::Repeat(times@, Stmt::body_view(body)),
            Stmt::Loop { body } => StmtV::Loop(Stmt::body_view(body)),
            Stmt::Return(e) => StmtV::Return(e@),
            Stmt::Break => StmtV::Break,
            Stmt::Continue => StmtV::Continue,
        }
    }
}

/// Models of a sequence of statements.
pub open spec fn stmt_views(v: Seq<Stmt>) -> Seq<StmtV> {
    v.map_values(|s: Stmt| s@)
}

pub proof fn lemma_body_view(v: Vec<Stmt>)
    ensures
        Stmt::body_view(&v) == stmt_views(v@),
{
    assert(Stmt::body_view(&v) =~= stmt_views(v@));
}

/// A whole source file.
#[derive(Debug)]
pub struct Program {
    pub stmts: Vec<Stmt>,
}

} // verus!
