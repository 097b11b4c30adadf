//! From a program to the variables of an Entry project.
//!
//! Every variable that a program names becomes an Entry variable: its id is
//! derived from its name (or taken from a base project that already has it),
//! its kind comes from a declaration, from its use as a list, or from its
//! name.

pub mod schema;

use vstd::prelude::*;
use crate::block::names::{djb2, id_for, id_text, kind_for, kind_of_name};
use crate::ir::{Expr, ExprV, Program, Stmt, StmtV, VarScope, expr_views, stmt_views};
use crate::text::str_is;
use crate::var::{
    fresh_name, fresh_name_of, info_ref_views, lists_vars, VarInfo, VarInfoV, VarInit, VarKind, VarMap,
    VarMapV,
};

verus! {

/// What the reading of a program notes about one variable name.
#[derive(Debug)]
pub enum NameEvent {
    /// The name is used.
    Use(String),
    /// The name is declared, with an explicit kind or none, and a scope.
    Decl(String, Option<VarKind>, VarScope),
    /// The name is used where a list is expected.
    ListUse(String),
}

/// Model of a name event.
pub enum NameEventV {
    Use(Seq<char>),
    Decl(Seq<char>, Option<VarKind>, VarScope),
    ListUse(Seq<char>),
}

impl View for NameEvent {
    type V = NameEventV;

    open spec fn view(&self) -> NameEventV {
        match self {
            NameEvent::Use(n) => NameEventV::Use(n@),
            NameEvent::Decl(n, k, s) => NameEventV::Decl(n@, *k, *s),
            NameEvent::ListUse(n) => NameEventV::ListUse(n@),
        }
    }
}

pub open spec fn event_views(v: Seq<NameEvent>) -> Seq<NameEventV> {
    v.map_values(|e: NameEvent| e@)
}

// ---------------------------------------------------------------------------
// Model: the names a program notes, in reading order
// ---------------------------------------------------------------------------

/// The argument that a list call expects to be a list.
pub open spec fn list_arg(name: Seq<char>) -> Option<int> {
    if name == "value_of_index_from_list"@ || name == "add_value_to_list"@ || name == "remove_value_from_list"@ {
        Some(1)
    } else if name == "insert_value_to_list"@ || name == "change_value_list_index"@ {
        Some(2)
    } else if name == "length_of_list"@ || name == "is_included_in_list"@ || name == "show_list"@ || name
        == "hide_list"@ {
        Some(0)
    } else {
        None
    }
}

pub open spec fn list_events(name: Seq<char>, args: Seq<ExprV>) -> Seq<NameEventV> {
    match list_arg(name) {
        Some(i) => if 0 <= i < args.len() && args[i] is Var {
            seq![NameEventV::ListUse(args[i]->Var_0)]
        } else {
            seq![]
        },
        None => seq![],
    }
}

pub open spec fn expr_events(e: ExprV) -> Seq<NameEventV>
    decreases e, 1int, 0int,
{
    match e {
        ExprV::Var(n) => seq![NameEventV::Use(n)],
        ExprV::Call(name, _, args) => list_events(name, args) + args_events(args, args.len()),
        ExprV::BinOp(_, l, r) => expr_events(*l) + expr_events(*r),
        ExprV::Range(l, r) => expr_events(*l) + expr_events(*r),
        ExprV::UnaryOp(_, x) => expr_events(*x),
        _ => seq![],
    }
}

pub open spec fn args_events(args: Seq<ExprV>, n: nat) -> Seq<NameEventV>
    decreases args, 0int, n,
{
    if n == 0 || n > args.len() {
        seq![]
    } else {
        args_events(args, (n - 1) as nat) + expr_events(args[n - 1])
    }
}

pub open spec fn params_events(ps: Seq<(Seq<char>, crate::ir::ParamKind)>, n: nat) -> Seq<NameEventV>
    decreases n,
{
    if n == 0 || n > ps.len() {
        seq![]
    } else {
        params_events(ps, (n - 1) as nat).push(NameEventV::Use(ps[n - 1].0))
    }
}

pub open spec fn stmt_events(s: StmtV) -> Seq<NameEventV>
    decreases s, 1int, 0int,
{
    match s {
        StmtV::VarDecl(n, e, k, sc) => seq![NameEventV::Decl(n, k, sc)] + expr_events(e),
        StmtV::SetVar(n, _, e) => seq![NameEventV::Use(n)] + expr_events(e),
        StmtV::ChangeVariable(n, _, e) => seq![NameEventV::Use(n)] + expr_events(e),
        StmtV::Expr(e) => expr_events(e),
        StmtV::Return(e) => expr_events(e),
        StmtV::Dialog(e, _) => expr_events(e),
        StmtV::If(c, t, f) => expr_events(c) + body_events(t, t.len()) + body_events(f, f.len()),
        StmtV::While(c, b) => expr_events(c) + body_events(b, b.len()),
        StmtV::Repeat(c, b) => expr_events(c) + body_events(b, b.len()),
        StmtV::For(v, it, b) => seq![NameEventV::Use(v)] + expr_events(it) + body_events(b, b.len()),
        StmtV::Loop(b) => body_events(b, b.len()),
        StmtV::FuncDef(_, ps, _, b) => params_events(ps, ps.len()) + body_events(b, b.len()),
        _ => seq![],
    }
}

pub open spec fn body_events(b: Seq<StmtV>, n: nat) -> Seq<NameEventV>
    decreases b, 0int, n,
{
    if n == 0 || n > b.len() {
        seq![]
    } else {
        body_events(b, (n - 1) as nat) + stmt_events(b[n - 1])
    }
}

/// `acc` with `n` added at its end unless it is already there.
pub open spec fn push_new(acc: Seq<Seq<char>>, n: Seq<char>) -> Seq<Seq<char>> {
    if acc.contains(n) {
        acc
    } else {
        acc.push(n)
    }
}

/// The distinct names of the events, in the order they first occur.
pub open spec fn event_names(evs: Seq<NameEventV>) -> Seq<Seq<char>>
    decreases evs.len(),
{
    if evs.len() == 0 {
        seq![]
    } else {
        let prev = event_names(evs.drop_last());
        match evs.last() {
            NameEventV::Use(n) => push_new(prev, n),
            NameEventV::Decl(n, _, _) => push_new(prev, n),
            NameEventV::ListUse(_) => prev,
        }
    }
}

/// The kind that the last declaration of `n` with a kind gives it.
pub open spec fn declared_kind(evs: Seq<NameEventV>, n: Seq<char>) -> Option<VarKind>
    decreases evs.len(),
{
    if evs.len() == 0 {
        None
    } else {
        match evs.last() {
            NameEventV::Decl(m, Some(k), _) => if m == n {
                Some(k)
            } else {
                declared_kind(evs.drop_last(), n)
            },
            _ => declared_kind(evs.drop_last(), n),
        }
    }
}

/// The scope of the last declaration of `n`; local when it has none.
pub open spec fn declared_scope(evs: Seq<NameEventV>, n: Seq<char>) -> VarScope
    decreases evs.len(),
{
    if evs.len() == 0 {
        VarScope::Local
    } else {
        match evs.last() {
            NameEventV::Decl(m, _, sc) => if m == n {
                sc
            } else {
                declared_scope(evs.drop_last(), n)
            },
            _ => declared_scope(evs.drop_last(), n),
        }
    }
}

pub open spec fn used_as_list(evs: Seq<NameEventV>, n: Seq<char>) -> bool {
    exists|i: int| 0 <= i < evs.len() && evs[i] == NameEventV::ListUse(n)
}

/// A name's kind: as declared, else a list when used as one, else by the
/// name itself.
pub open spec fn name_kind(evs: Seq<NameEventV>, n: Seq<char>) -> VarKind {
    match declared_kind(evs, n) {
        Some(k) => k,
        None => if used_as_list(evs, n) {
            VarKind::List
        } else {
            kind_of_name(n)
        },
    }
}

/// Initial value of a new variable of kind `k`.
pub open spec fn init_for(k: VarKind) -> VarInit {
    match k {
        VarKind::List => VarInit::EmptyList,
        VarKind::Timer => VarInit::Float0,
        _ => VarInit::EmptyStr,
    }
}

/// The first variable of the base listing that a new variable matches: same
/// source name, or same original name.
pub open spec fn base_match(bl: Seq<VarInfoV>, name: Seq<char>, original: Seq<char>, k: nat) -> Option<VarInfoV>
    decreases bl.len() - k,
{
    if k >= bl.len() {
        None
    } else if bl[k as int].name == name || bl[k as int].original_name == original {
        Some(bl[k as int])
    } else {
        base_match(bl, name, original, k + 1)
    }
}

/// The variables that the first `n` names give, and the source names taken.
pub open spec fn new_vars(names: Seq<Seq<char>>, evs: Seq<NameEventV>, bl: Seq<VarInfoV>, n: nat) -> (Seq<VarInfoV>, Seq<Seq<char>>)
    decreases n,
{
    if n == 0 || n > names.len() {
        (seq![], seq![])
    } else {
        let (vs, used) = new_vars(names, evs, bl, (n - 1) as nat);
        let original = names[n - 1];
        let name = fresh_name(original, used);
        let kind = name_kind(evs, original);
        let id = match base_match(bl, name, original, 0) {
            Some(b) => b.id,
            None => id_text(original),
        };
        (
            vs.push(VarInfoV { id, name, original_name: original, kind, init: init_for(kind), scope: declared_scope(evs, original) }),
            used.push(name),
        )
    }
}

/// The table after inserting each of `vs` in turn.
pub open spec fn inserted(m: VarMapV, vs: Seq<VarInfoV>) -> VarMapV
    decreases vs.len(),
{
    if vs.len() == 0 {
        m
    } else {
        let p = inserted(m, vs.drop_last());
        VarMapV { ids: p.ids.insert(vs.last().id, vs.last()), names: p.names.insert(vs.last().name, vs.last().id) }
    }
}

/// Some variable of the table has the source name `n`.
pub open spec fn has_name(m: VarMapV, n: Seq<char>) -> bool {
    exists|k: Seq<char>| m.ids.contains_key(k) && m.ids[k].name == n
}

/// The table after keeping each base variable of the first `n` whose source
/// name no variable has yet.
pub open spec fn kept_base(m: VarMapV, bl: Seq<VarInfoV>, n: nat) -> VarMapV
    decreases n,
{
    if n == 0 || n > bl.len() {
        m
    } else {
        let p = kept_base(m, bl, (n - 1) as nat);
        let b = bl[n - 1];
        if has_name(p, b.name) {
            p
        } else {
            VarMapV { ids: p.ids.insert(b.id, b), names: p.names.insert(b.name, b.id) }
        }
    }
}

/// The variable table of a program, given the base variables in the order
/// `bl` lists them.
pub open spec fn var_map_of(evs: Seq<NameEventV>, bl: Seq<VarInfoV>) -> VarMapV {
    let names = event_names(evs);
    let vs = new_vars(names, evs, bl, names.len()).0;
    let empty = VarMapV { ids: Map::empty(), names: Map::empty() };
    kept_base(inserted(empty, vs), bl, bl.len())
}

pub open spec fn program_events(p: &Program) -> Seq<NameEventV> {
    let ss = stmt_views(p.stmts@);
    body_events(ss, ss.len())
}

// ---------------------------------------------------------------------------
// Reading the names
// ---------------------------------------------------------------------------

fn list_arg_of(name: &str) -> (r: Option<usize>)
    ensures
        match r {
            Some(i) => list_arg(name@) == Some(i as int),
            None => list_arg(name@) is None,
        },
{
    if str_is(name, "value_of_index_from_list") || str_is(name, "add_value_to_list") || str_is(
        name,
        "remove_value_from_list",
    ) {
        Some(1)
    } else if str_is(name, "insert_value_to_list") || str_is(name, "change_value_list_index") {
        Some(2)
    } else if str_is(name, "length_of_list") || str_is(name, "is_included_in_list") || str_is(name, "show_list")
        || str_is(name, "hide_list") {
        Some(0)
    } else {
        None
    }
}

fn push_event(out: &mut Vec<NameEvent>, e: NameEvent)
    ensures
        event_views(final(out)@) == event_views(old(out)@).push(e@),
{
    let ghost before = event_views(out@);
    out.push(e);
    proof {
        assert(event_views(out@) =~= before.push(e@));
    }
}

fn expr_names(e: &Expr, out: &mut Vec<NameEvent>)
    ensures
        event_views(final(out)@) == event_views(old(out)@) + expr_events(e@),
    decreases e@, 1int, 0int,
{
    let ghost start = event_views(out@);
    match e {
        Expr::Var(n) => {
            push_event(out, NameEvent::Use(n.clone()));
        },
        Expr::Call(f, args) => {
            proof {
                crate::ir::lemma_call_view(*f, *args);
                let c = e@;
                assert(decreases_to!(c => c->Call_2));
            }
            let ghost av = expr_views(args@);
            match list_arg_of(f.name.as_str()) {
                Some(i) => {
                    if i < args.len() {
                        proof {
                            assert(av[i as int] == args@[i as int]@);
                        }
                        match &args[i] {
                            Expr::Var(n) => push_event(out, NameEvent::ListUse(n.clone())),
                            _ => {},
                        }
                    }
                },
                None => {},
            }
            assert(event_views(out@) =~= start + list_events(f.name@, av));
            args_names(args, out);
        },
        Expr::BinOp(_, l, r) => {
            proof {
                let c = e@;
                assert(decreases_to!(c => c->BinOp_1));
                assert(decreases_to!(c => c->BinOp_2));
            }
            expr_names(l, out);
            expr_names(r, out);
        },
        Expr::Range(l, r) => {
            proof {
                let c = e@;
                assert(decreases_to!(c => c->Range_0));
                assert(decreases_to!(c => c->Range_1));
            }
            expr_names(l, out);
            expr_names(r, out);
        },
        Expr::UnaryOp(_, x) => {
            proof {
                let c = e@;
                assert(decreases_to!(c => c->UnaryOp_1));
            }
            expr_names(x, out);
        },
        _ => {},
    }
    assert(event_views(out@) =~= start + expr_events(e@));
}

fn args_names(args: &Vec<Expr>, out: &mut Vec<NameEvent>)
    ensures
        event_views(final(out)@) == event_views(old(out)@) + args_events(expr_views(args@), args@.len()),
    decreases expr_views(args@), 0int, args@.len(),
{
    let ghost av = expr_views(args@);
    let ghost start = event_views(out@);
    let mut i: usize = 0;
    while i < args.len()
        invariant
            i <= args.len(),
            av == expr_views(args@),
            event_views(out@) == start + args_events(av, i as nat),
        decreases args.len() - i,
    {
        proof {
            assert(av[i as int] == args@[i as int]@);
            assert(decreases_to!(av => av[i as int]));
        }
        expr_names(&args[i], out);
        proof {
            assert(event_views(out@) =~= start + args_events(av, (i + 1) as nat));
        }
        i = i + 1;
    }
}

fn body_names(body: &Vec<Stmt>, out: &mut Vec<NameEvent>)
    ensures
        event_views(final(out)@) == event_views(old(out)@) + body_events(stmt_views(body@), body@.len()),
    decreases stmt_views(body@), 0int, body@.len(),
{
    let ghost bv = stmt_views(body@);
    let ghost start = event_views(out@);
    let mut i: usize = 0;
    while i < body.len()
        invariant
            i <= body.len(),
            bv == stmt_views(body@),
            event_views(out@) == start + body_events(bv, i as nat),
        decreases body.len() - i,
    {
        proof {
            assert(bv[i as int] == body@[i as int]@);
            assert(decreases_to!(bv => bv[i as int]));
        }
        stmt_names(&body[i], out);
        proof {
            assert(event_views(out@) =~= start + body_events(bv, (i + 1) as nat));
        }
        i = i + 1;
    }
}

fn params_names(ps: &Vec<(String, crate::ir::ParamKind)>, out: &mut Vec<NameEvent>)
    ensures
        event_views(final(out)@) == event_views(old(out)@) + params_events(
            ps@.map_values(|p: (String, crate::ir::ParamKind)| (p.0@, p.1)),
            ps@.len(),
        ),
{
    let ghost pv = ps@.map_values(|p: (String, crate::ir::ParamKind)| (p.0@, p.1));
    let ghost start = event_views(out@);
    let mut i: usize = 0;
    while i < ps.len()
        invariant
            i <= ps.len(),
            pv == ps@.map_values(|p: (String, crate::ir::ParamKind)| (p.0@, p.1)),
            event_views(out@) == start + params_events(pv, i as nat),
        decreases ps.len() - i,
    {
        push_event(out, NameEvent::Use(ps[i].0.clone()));
        proof {
            assert(event_views(out@) =~= start + params_events(pv, (i + 1) as nat));
        }
        i = i + 1;
    }
}

fn stmt_names(s: &Stmt, out: &mut Vec<NameEvent>)
    ensures
        event_views(final(out)@) == event_views(old(out)@) + stmt_events(s@),
    decreases s@, 1int, 0int,
{
    let ghost start = event_views(out@);
    let ghost sv = s@;
    match s {
        Stmt::VarDecl(n, e, k, sc) => {
            push_event(out, NameEvent::Decl(n.clone(), *k, *sc));
            expr_names(e, out);
        },
        Stmt::SetVar(v, e) => {
            push_event(out, NameEvent::Use(v.name.clone()));
            expr_names(e, out);
        },
        Stmt::ChangeVariable { variable, value } => {
            push_event(out, NameEvent::Use(variable.name.clone()));
            expr_names(value, out);
        },
        Stmt::Expr(e) => expr_names(e, out),
        Stmt::Return(e) => expr_names(e, out),
        Stmt::Dialog { value, .. } => expr_names(value, out),
        Stmt::If { cond, then_body, else_body } => {
            proof {
                crate::ir::lemma_body_view(*then_body);
                crate::ir::lemma_body_view(*else_body);
                assert(decreases_to!(sv => sv->If_1));
                assert(decreases_to!(sv => sv->If_2));
            }
            expr_names(cond, out);
            body_names(then_body, out);
            body_names(else_body, out);
        },
        Stmt::While { cond, body } => {
            proof {
                crate::ir::lemma_body_view(*body);
                assert(decreases_to!(sv => sv->While_1));
            }
            expr_names(cond, out);
            body_names(body, out);
        },
        Stmt::Repeat { times, body } => {
            proof {
                crate::ir::lemma_body_view(*body);
                assert(decreases_to!(sv => sv->Repeat_1));
            }
            expr_names(times, out);
            body_names(body, out);
        },
        Stmt::For { var, iter, body } => {
            proof {
                crate::ir::lemma_body_view(*body);
                assert(decreases_to!(sv => sv->For_2));
            }
            push_event(out, NameEvent::Use(var.clone()));
            expr_names(iter, out);
            body_names(body, out);
        },
        Stmt::Loop { body } => {
            proof {
                crate::ir::lemma_body_view(*body);
                assert(decreases_to!(sv => sv->Loop_0));
            }
            body_names(body, out);
        },
        Stmt::FuncDef { params, body, .. } => {
            proof {
                crate::ir::lemma_body_view(*body);
                assert(decreases_to!(sv => sv->FuncDef_3));
            }
            params_names(params, out);
            body_names(body, out);
        },
        _ => {},
    }
    assert(event_views(out@) =~= start + stmt_events(s@));
}

/// The name events of a whole program, in reading order.
pub fn program_names(p: &Program) -> (r: Vec<NameEvent>)
    ensures
        event_views(r@) == program_events(p),
{
    let mut out: Vec<NameEvent> = Vec::new();
    proof {
        assert(event_views(out@) =~= Seq::<NameEventV>::empty());
    }
    body_names(&p.stmts, &mut out);
    assert(event_views(out@) =~= program_events(p));
    out
}

// ---------------------------------------------------------------------------
// From events to variables
// ---------------------------------------------------------------------------

fn contains_str(v: &Vec<String>, n: &str) -> (r: bool)
    ensures
        r == v@.map_values(|s: String| s@).contains(n@),
{
    let ghost u = v@.map_values(|s: String| s@);
    let mut i: usize = 0;
    while i < v.len()
        invariant
            i <= v.len(),
            u == v@.map_values(|s: String| s@),
            forall|j: int| 0 <= j < i ==> u[j] != n@,
        decreases v.len() - i,
    {
        if str_is(v[i].as_str(), n) {
            proof {
                assert(u[i as int] == n@);
            }
            return true;
        }
        i = i + 1;
    }
    false
}

/// The distinct names of the events, in the order they first occur.
pub fn names_of_events(evs: &Vec<NameEvent>) -> (r: Vec<String>)
    ensures
        r@.map_values(|s: String| s@) == event_names(event_views(evs@)),
{
    let ghost ev = event_views(evs@);
    let mut out: Vec<String> = Vec::new();
    let mut i: usize = 0;
    proof {
        assert(out@.map_values(|s: String| s@) =~= event_names(ev.take(0)));
    }
    while i < evs.len()
        invariant
            i <= evs.len(),
            ev == event_views(evs@),
            out@.map_values(|s: String| s@) == event_names(ev.take(i as int)),
        decreases evs.len() - i,
    {
        proof {
            assert(ev.take(i + 1).drop_last() =~= ev.take(i as int));
            assert(ev.take(i + 1).last() == evs@[i as int]@);
        }
        let name: Option<&String> = match &evs[i] {
            NameEvent::Use(n) => Some(n),
            NameEvent::Decl(n, _, _) => Some(n),
            NameEvent::ListUse(_) => None,
        };
        if let Some(n) = name {
            if !contains_str(&out, n.as_str()) {
                let ghost before = out@.map_values(|s: String| s@);
                out.push(n.clone());
                proof {
                    assert(out@.map_values(|s: String| s@) =~= before.push(n@));
                }
            }
        }
        i = i + 1;
    }
    proof {
        assert(ev.take(i as int) =~= ev);
    }
    out
}

/// The kind of `n`: as declared, else a list when used as one, else by name.
fn kind_of_events(evs: &Vec<NameEvent>, n: &str) -> (r: VarKind)
    ensures
        r == name_kind(event_views(evs@), n@),
{
    let ghost ev = event_views(evs@);
    let mut declared: Option<VarKind> = None;
    let mut listed = false;
    let mut i: usize = 0;
    while i < evs.len()
        invariant
            i <= evs.len(),
            ev == event_views(evs@),
            declared == declared_kind(ev.take(i as int), n@),
            listed == used_as_list(ev.take(i as int), n@),
        decreases evs.len() - i,
    {
        proof {
            assert(ev.take(i + 1).drop_last() =~= ev.take(i as int));
            assert(ev.take(i + 1).last() == evs@[i as int]@);
        }
        match &evs[i] {
            NameEvent::Decl(m, Some(k), _) => {
                if str_is(m.as_str(), n) {
                    declared = Some(*k);
                }
            },
            NameEvent::ListUse(m) => {
                if str_is(m.as_str(), n) {
                    listed = true;
                    proof {
                        assert(ev.take(i + 1)[i as int] == NameEventV::ListUse(n@));
                    }
                }
            },
            _ => {},
        }
        proof {
            let t = ev.take(i + 1);
            if !listed {
                assert forall|j: int| 0 <= j < t.len() implies t[j] != NameEventV::ListUse(n@) by {
                    if j < i {
                        assert(t[j] == ev.take(i as int)[j]);
                    }
                }
            } else if used_as_list(ev.take(i as int), n@) {
                let j = choose|j: int| 0 <= j < i && ev.take(i as int)[j] == NameEventV::ListUse(n@);
                assert(t[j] == ev.take(i as int)[j]);
            }
        }
        i = i + 1;
    }
    proof {
        assert(ev.take(i as int) =~= ev);
    }
    match declared {
        Some(k) => k,
        None => if listed {
            VarKind::List
        } else {
            kind_for(n)
        },
    }
}

fn scope_of_events(evs: &Vec<NameEvent>, n: &str) -> (r: VarScope)
    ensures
        r == declared_scope(event_views(evs@), n@),
{
    let ghost ev = event_views(evs@);
    let mut sc = VarScope::Local;
    let mut i: usize = 0;
    while i < evs.len()
        invariant
            i <= evs.len(),
            ev == event_views(evs@),
            sc == declared_scope(ev.take(i as int), n@),
        decreases evs.len() - i,
    {
        proof {
            assert(ev.take(i + 1).drop_last() =~= ev.take(i as int));
            assert(ev.take(i + 1).last() == evs@[i as int]@);
        }
        match &evs[i] {
            NameEvent::Decl(m, _, s) => {
                if str_is(m.as_str(), n) {
                    sc = *s;
                }
            },
            _ => {},
        }
        i = i + 1;
    }
    proof {
        assert(ev.take(i as int) =~= ev);
    }
    sc
}

fn init_of_kind(k: VarKind) -> (r: VarInit)
    ensures
        r == init_for(k),
{
    match k {
        VarKind::List => VarInit::EmptyList,
        VarKind::Timer => VarInit::Float0,
        _ => VarInit::EmptyStr,
    }
}

fn find_base<'a>(bl: &Vec<&'a VarInfo>, name: &str, original: &str) -> (r: Option<&'a VarInfo>)
    ensures
        match base_match(info_ref_views(bl@), name@, original@, 0) {
            Some(b) => r matches Some(v) && v@ == b,
            None => r is None,
        },
{
    let ghost vs = info_ref_views(bl@);
    let mut i: usize = bl.len();
    let mut found: Option<&'a VarInfo> = None;
    proof {
        assert(base_match(vs, name@, original@, bl@.len() as nat) is None);
    }
    while i > 0
        invariant
            i <= bl.len(),
            vs == info_ref_views(bl@),
            match base_match(vs, name@, original@, i as nat) {
                Some(b) => found matches Some(v) && v@ == b,
                None => found is None,
            },
        decreases i,
    {
        i = i - 1;
        let v = bl[i];
        proof {
            assert(vs[i as int] == v@);
        }
        if str_is(v.name.as_str(), name) || str_is(v.original_name.as_str(), original) {
            found = Some(v);
        }
    }
    found
}

fn has_name_in(m: &VarMap, name: &str) -> (r: bool)
    ensures
        r == has_name(m@, name@),
{
    let list = m.iter();
    let ghost vs = info_ref_views(list@);
    let mut i: usize = 0;
    while i < list.len()
        invariant
            i <= list.len(),
            vs == info_ref_views(list@),
            lists_vars(vs, m@),
            forall|j: int| 0 <= j < i ==> vs[j].name != name@,
        decreases list.len() - i,
    {
        if str_is(list[i].name.as_str(), name) {
            proof {
                assert(vs[i as int] == list@[i as int]@);
                assert(m@.ids.contains_key(vs[i as int].id) && m@.ids[vs[i as int].id].name == name@);
            }
            return true;
        }
        proof {
            assert(vs[i as int] == list@[i as int]@);
        }
        i = i + 1;
    }
    proof {
        assert forall|k: Seq<char>| m@.ids.contains_key(k) implies m@.ids[k].name != name@ by {
            let j = choose|j: int| 0 <= j < vs.len() && #[trigger] vs[j].id == k;
        }
    }
    false
}

fn info_copy(v: &VarInfo) -> (r: VarInfo)
    ensures
        r@ == v@,
{
    VarInfo {
        id: v.id.clone(),
        name: v.name.clone(),
        original_name: v.original_name.clone(),
        kind: v.kind,
        init: v.init,
        scope: v.scope,
    }
}

/// The variable table of a program. Each name the program uses, in the
/// order it first occurs, becomes a variable: its source name is the name
/// made an identifier (with a hash suffix where that is taken), its kind
/// comes from a declaration, from a use as a list, or from the name, and its
/// id is that of a base variable with the same source or original name, or
/// else derived from the name. Base variables whose source name no variable
/// has are kept. Which of several matching base variables gives the id
/// follows the order in which the base table lists its variables.
pub fn collect_var_map(program: &Program, base: &VarMap) -> (r: VarMap)
    ensures
        exists|bl: Seq<VarInfoV>| lists_vars(bl, base@) && r@ == var_map_of(program_events(program), bl),
{
    let evs = program_names(program);
    let ghost ev = event_views(evs@);
    let names = names_of_events(&evs);
    let ghost nv = names@.map_values(|s: String| s@);
    let bl = base.iter();
    let ghost bv = info_ref_views(bl@);
    let mut map = VarMap::new();
    let mut used: Vec<String> = Vec::new();
    let mut i: usize = 0;
    let ghost empty = VarMapV { ids: Map::empty(), names: Map::empty() };
    proof {
        assert(map@ == empty);
        assert(used@.map_values(|s: String| s@) =~= Seq::<Seq<char>>::empty());
    }
    while i < names.len()
        invariant
            i <= names.len(),
            ev == event_views(evs@),
            nv == names@.map_values(|s: String| s@),
            nv == event_names(ev),
            bv == info_ref_views(bl@),
            used@.len() == i,
            used@.map_values(|s: String| s@) == new_vars(nv, ev, bv, i as nat).1,
            map@ == inserted(empty, new_vars(nv, ev, bv, i as nat).0),
        decreases names.len() - i,
    {
        let original = names[i].as_str();
        proof {
            assert(nv[i as int] == original@);
        }
        let kind = kind_of_events(&evs, original);
        let scope = scope_of_events(&evs, original);
        let name = fresh_name_of(original, &used);
        let id = match find_base(&bl, name.as_str(), original) {
            Some(b) => b.id.clone(),
            None => id_for(original),
        };
        let info = VarInfo {
            id,
            name: name.clone(),
            original_name: original.to_owned(),
            kind,
            init: init_of_kind(kind),
            scope,
        };
        let ghost prev = new_vars(nv, ev, bv, i as nat);
        map.insert(info);
        let ghost ub = used@.map_values(|s: String| s@);
        used.push(name);
        proof {
            assert(used@.map_values(|s: String| s@) =~= ub.push(name@));
            let nxt = new_vars(nv, ev, bv, (i + 1) as nat);
            assert(nxt.0 == prev.0.push(info@));
            assert(nxt.0.drop_last() =~= prev.0);
        }
        i = i + 1;
    }
    let ghost after_new = map@;
    let mut j: usize = 0;
    while j < bl.len()
        invariant
            j <= bl.len(),
            bv == info_ref_views(bl@),
            map@ == kept_base(after_new, bv, j as nat),
        decreases bl.len() - j,
    {
        let v = bl[j];
        proof {
            assert(bv[j as int] == v@);
        }
        if !has_name_in(&map, v.name.as_str()) {
            map.insert(info_copy(v));
        }
        j = j + 1;
    }
    proof {
        assert(lists_vars(bv, base@) && map@ == var_map_of(program_events(program), bv));
    }
    map
}

} // verus!

pub use crate::compile::generate;
