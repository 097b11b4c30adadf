//! Reading Rust source text with `syn` into the library's syntax tree.

use vstd::prelude::*;

use syn::{BinOp as RsBinOp, Block as RsBlock, Expr as RsExpr, Stmt as RsStmt};

use crate::parse::{SourceFile, SynBinOp, SynExpr, SynFnArg, SynItem, SynLit, SynPat, SynStmt, SynType, SynUnOp};

verus! {

#[verifier::external_type_specification]
#[verifier::external_body]
pub struct ExSynItem(syn::Item);

#[verifier::external_type_specification]
#[verifier::external_body]
pub struct ExSynFnArg(syn::FnArg);

#[verifier::external_type_specification]
#[verifier::external_body]
pub struct ExSynPat(syn::Pat);

#[verifier::external_type_specification]
#[verifier::external_body]
pub struct ExSynType(syn::Type);

#[verifier::external_type_specification]
#[verifier::external_body]
pub struct ExSynStmt(RsStmt);

#[verifier::external_type_specification]
#[verifier::external_body]
pub struct ExSynBlock(RsBlock);

#[verifier::external_type_specification]
#[verifier::external_body]
pub struct ExSynBinOp(RsBinOp);

#[verifier::external_type_specification]
#[verifier::external_body]
pub struct ExSynLit(syn::Lit);

#[verifier::external_type_specification]
#[verifier::external_body]
pub struct ExSynUnOp(syn::UnOp);

#[verifier::external_type_specification]
#[verifier::external_body]
pub struct ExSynExpr(RsExpr);

/// The items that `syn::parse_str::<syn::File>` reads from `text`, each
/// taken node for node into the library's tree; `None` when syn refuses
/// the text.
pub uninterp spec fn syn_source(text: Seq<char>) -> Option<Seq<SynItem>>;

/// Reads Rust source text with `syn::parse_str::<syn::File>`. On failure
/// the message is syn's, and nothing is stated of its words.
#[verifier::external_body]
pub(crate) fn parse_source(text: &str) -> (r: Result<SourceFile, String>)
    ensures
        match r {
            Ok(f) => syn_source(text@) == Some(f.items@),
            Err(_) => syn_source(text@) is None,
        },
{
    let file: syn::File = syn::parse_str(text).map_err(|e| e.to_string())?;
    Ok(SourceFile { items: file.items.iter().map(syn_item).collect() })
}

/// A syn item in the library's tree, node for node.
#[verifier::external_body]
fn syn_item(it: &syn::Item) -> SynItem {
    match it {
        syn::Item::Fn(f) => SynItem::Fn(
            f.sig.ident.to_string(),
            f.sig.inputs.iter().map(syn_fn_arg).collect(),
            match &f.sig.output {
                syn::ReturnType::Default => None,
                syn::ReturnType::Type(_, t) => Some(syn_type(t)),
            },
            syn_block(&f.block),
        ),
        syn::Item::Static(s) => SynItem::Static(s.ident.to_string(), syn_type(&s.ty), syn_expr(&s.expr)),
        syn::Item::Const(_) => SynItem::Const,
        _ => SynItem::Other,
    }
}

/// A syn function parameter in the library's tree.
#[verifier::external_body]
fn syn_fn_arg(a: &syn::FnArg) -> SynFnArg {
    match a {
        syn::FnArg::Receiver(_) => SynFnArg::Receiver,
        syn::FnArg::Typed(pt) => SynFnArg::Typed(syn_pat(&pt.pat), syn_type(&pt.ty)),
    }
}

/// A syn pattern in the library's tree.
#[verifier::external_body]
fn syn_pat(p: &syn::Pat) -> SynPat {
    match p {
        syn::Pat::Ident(pi) => SynPat::Ident(pi.ident.to_string()),
        syn::Pat::Wild(_) => SynPat::Wild,
        _ => SynPat::Other,
    }
}

/// A syn type in the library's tree.
#[verifier::external_body]
fn syn_type(t: &syn::Type) -> SynType {
    match t {
        syn::Type::Path(tp) => SynType::Path(tp.path.segments.iter().map(|s| s.ident.to_string()).collect()),
        syn::Type::Reference(r) => SynType::Ref(Box::new(syn_type(&r.elem))),
        _ => SynType::Other,
    }
}

/// A syn statement in the library's tree.
#[verifier::external_body]
fn syn_stmt(s: &RsStmt) -> SynStmt {
    match s {
        syn::Stmt::Local(l) => match &l.pat {
            syn::Pat::Type(pt) => SynStmt::Local(syn_pat(&pt.pat), Some(syn_type(&pt.ty)), l.init.as_ref().map(|i| syn_expr(&i.expr))),
            other => SynStmt::Local(syn_pat(other), None, l.init.as_ref().map(|i| syn_expr(&i.expr))),
        },
        syn::Stmt::Expr(e, _) => SynStmt::Expr(syn_expr(e)),
        _ => SynStmt::Other,
    }
}

/// The statements of a syn block in the library's tree.
#[verifier::external_body]
fn syn_block(b: &RsBlock) -> Vec<SynStmt> {
    b.stmts.iter().map(syn_stmt).collect()
}

/// A syn binary operator in the library's tree (arithmetic and logic
/// here, comparisons in `syn_rel_op`).
#[verifier::external_body]
fn syn_bin_op(op: &RsBinOp) -> SynBinOp {
    match op {
        syn::BinOp::Add(_) => SynBinOp::Add,
        syn::BinOp::Sub(_) => SynBinOp::Sub,
        syn::BinOp::Mul(_) => SynBinOp::Mul,
        syn::BinOp::Div(_) => SynBinOp::Div,
        syn::BinOp::Rem(_) => SynBinOp::Rem,
        syn::BinOp::And(_) => SynBinOp::And,
        syn::BinOp::Or(_) => SynBinOp::Or,
        other => syn_rel_op(other),
    }
}

/// A syn comparison operator in the library's tree.
#[verifier::external_body]
fn syn_rel_op(op: &RsBinOp) -> SynBinOp {
    match op {
        syn::BinOp::Eq(_) => SynBinOp::Eq,
        syn::BinOp::Lt(_) => SynBinOp::Lt,
        syn::BinOp::Le(_) => SynBinOp::Le,
        syn::BinOp::Ne(_) => SynBinOp::Ne,
        syn::BinOp::Ge(_) => SynBinOp::Ge,
        syn::BinOp::Gt(_) => SynBinOp::Gt,
        _ => SynBinOp::Other,
    }
}

/// A syn unary operator in the library's tree.
#[verifier::external_body]
fn syn_un_op(op: &syn::UnOp) -> SynUnOp {
    match op {
        syn::UnOp::Not(_) => SynUnOp::Not,
        syn::UnOp::Neg(_) => SynUnOp::Neg,
        _ => SynUnOp::Other,
    }
}

/// A syn literal in the library's tree.
#[verifier::external_body]
fn syn_lit(l: &syn::Lit) -> SynLit {
    match l {
        syn::Lit::Int(i) => SynLit::Int(i.base10_digits().to_string()),
        syn::Lit::Float(f) => SynLit::Float(f.base10_digits().to_string()),
        syn::Lit::Str(s) => SynLit::Str(s.value()),
        syn::Lit::Bool(b) => SynLit::Bool(b.value),
        _ => SynLit::Other,
    }
}

/// A syn expression in the library's tree: literals and operators here,
/// the other forms in `syn_expr_call` and `syn_flow`.
#[verifier::external_body]
fn syn_expr(e: &RsExpr) -> SynExpr {
    let boxed = |x: &RsExpr| Box::new(syn_expr(x));
    match e {
        syn::Expr::Lit(l) => SynExpr::Lit(syn_lit(&l.lit)),
        syn::Expr::Binary(b) => SynExpr::Binary(syn_bin_op(&b.op), boxed(&b.left), boxed(&b.right)),
        syn::Expr::Unary(u) => SynExpr::Unary(syn_un_op(&u.op), boxed(&u.expr)),
        other => syn_expr_call(other),
    }
}

/// A syn call or path in the library's tree.
#[verifier::external_body]
fn syn_expr_call(e: &RsExpr) -> SynExpr {
    let boxed = |x: &RsExpr| Box::new(syn_expr(x));
    match e {
        syn::Expr::Call(c) => SynExpr::Call(boxed(&c.func), c.args.iter().map(syn_expr).collect()),
        syn::Expr::Path(p) => SynExpr::Path(p.path.segments.iter().map(|s| s.ident.to_string()).collect()),
        other => syn_place(other),
    }
}

/// A syn parenthesis, reference or assignment in the library's tree.
#[verifier::external_body]
fn syn_place(e: &RsExpr) -> SynExpr {
    let boxed = |x: &RsExpr| Box::new(syn_expr(x));
    match e {
        syn::Expr::Paren(p) => SynExpr::Paren(boxed(&p.expr)),
        syn::Expr::Reference(r) => SynExpr::Reference(boxed(&r.expr)),
        syn::Expr::Assign(a) => SynExpr::Assign(boxed(&a.left), boxed(&a.right)),
        other => syn_flow(other),
    }
}

/// A syn range, `if`, `while` or `loop` in the library's tree.
#[verifier::external_body]
fn syn_flow(e: &RsExpr) -> SynExpr {
    let boxed = |x: &RsExpr| Box::new(syn_expr(x));
    match e {
        syn::Expr::Range(r) => SynExpr::Range(r.start.as_deref().map(boxed), r.end.as_deref().map(boxed)),
        syn::Expr::If(i) => SynExpr::If(boxed(&i.cond), syn_block(&i.then_branch), i.else_branch.as_ref().map(|(_, x)| boxed(x))),
        syn::Expr::While(w) => SynExpr::While(boxed(&w.cond), syn_block(&w.body)),
        syn::Expr::Loop(l) => SynExpr::Loop(syn_block(&l.body)),
        other => syn_flow_rest(other),
    }
}

/// A syn `for`, block, jump or `return` in the library's tree; any other
/// expression as `Other`.
#[verifier::external_body]
fn syn_flow_rest(e: &RsExpr) -> SynExpr {
    let boxed = |x: &RsExpr| Box::new(syn_expr(x));
    match e {
        syn::Expr::ForLoop(f) => SynExpr::ForLoop(syn_pat(&f.pat), boxed(&f.expr), syn_block(&f.body)),
        syn::Expr::Block(b) => SynExpr::Block(syn_block(&b.block)),
        syn::Expr::Break(_) => SynExpr::Break,
        syn::Expr::Continue(_) => SynExpr::Continue,
        syn::Expr::Return(r) => SynExpr::Return(r.expr.as_deref().map(boxed)),
        _ => SynExpr::Other(0),
    }
}

} // verus!
