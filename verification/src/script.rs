//! Reading an object's whole script: its threads of blocks become a program,
//! and asset ids in it become the names that the source language uses.

use vstd::prelude::*;
use crate::asset::{is_passthrough, lookup, AssetMap, AssetMapV};
use crate::block::kinds::BasicKind;
use crate::block::{Block, BlockV, block_views};
use crate::deparse::{agrees, block_from_value, dec_block};
use crate::error::{Error, ErrorKind};
use crate::ir::{Expr, ExprV, FuncRef, Program, Stmt, StmtV, expr_views, stmt_views};
use crate::json::{json_views, parse_json, json_text_value, Json, JsonV};
use crate::raise::{from_block_owned, raise_block, raise_blocks, raise_body};
use crate::text::{str_is, unicode_lower};
use crate::var::{VarMap, VarMapV};

verus! {

// ---------------------------------------------------------------------------
// Model: script to statements
// ---------------------------------------------------------------------------

/// The function name that a trigger block opens, for the triggers that start
/// a thread of their own.
pub open spec fn trigger_name(b: BlockV) -> Option<Seq<char>> {
    match b {
        BlockV::Basic(k, _) => if k == BasicKind::WhenStart {
            Some("when_start"@)
        } else if k == BasicKind::WhenClick {
            Some("when_click"@)
        } else if k == BasicKind::WhenCloneStart {
            Some("when_clone_start"@)
        } else if k == BasicKind::WhenSceneStart {
            Some("when_scene_start"@)
        } else if k == BasicKind::WhenMessageRecv {
            Some("when_message"@)
        } else {
            None
        },
        _ => None,
    }
}

/// The blocks of the first `n` values, read in order; the first failure
/// stops the reading.
pub open spec fn decode_blocks(vs: Seq<JsonV>, n: nat, vm: VarMapV) -> Result<Seq<BlockV>, ErrorKind>
    decreases n,
{
    if n == 0 || n > vs.len() {
        Ok(seq![])
    } else {
        match decode_blocks(vs, (n - 1) as nat, vm) {
            Err(e) => Err(e),
            Ok(p) => match dec_block(vs[n - 1], vm) {
                Err(e) => Err(e),
                Ok(b) => Ok(p.push(b)),
            },
        }
    }
}

/// The statements of the first `n` values, each read and then turned into
/// statements before the next is read.
pub open spec fn plain_stmts(vs: Seq<JsonV>, n: nat, vm: VarMapV) -> Result<Seq<StmtV>, ErrorKind>
    decreases n,
{
    if n == 0 || n > vs.len() {
        Ok(seq![])
    } else {
        match plain_stmts(vs, (n - 1) as nat, vm) {
            Err(e) => Err(e),
            Ok(p) => match dec_block(vs[n - 1], vm) {
                Err(e) => Err(e),
                Ok(b) => match raise_block(b) {
                    Err(e) => Err(e),
                    Ok(s) => Ok(p + s),
                },
            },
        }
    }
}

/// The statements of one thread. A thread that opens with a trigger, and
/// whose other blocks can all be read, becomes one function named after the
/// trigger; any other thread gives its blocks' statements in order.
pub open spec fn thread_stmts(vs: Seq<JsonV>, vm: VarMapV) -> Result<Seq<StmtV>, ErrorKind> {
    if vs.len() == 0 {
        Ok(seq![])
    } else {
        match dec_block(vs[0], vm) {
            Err(e) => Err(e),
            Ok(first) => match trigger_name(first) {
                Some(name) => match decode_blocks(vs.skip(1), (vs.len() - 1) as nat, vm) {
                    Ok(body) => match raise_blocks(body, body.len()) {
                        Err(e) => Err(e),
                        Ok(st) => Ok(seq![StmtV::FuncDef(name, seq![], None, st)]),
                    },
                    Err(_) => plain_stmts(vs, vs.len(), vm),
                },
                None => plain_stmts(vs, vs.len(), vm),
            },
        }
    }
}

/// The statements of the first `n` threads.
pub open spec fn threads_stmts(ts: Seq<JsonV>, n: nat, vm: VarMapV) -> Result<Seq<StmtV>, ErrorKind>
    decreases n,
{
    if n == 0 || n > ts.len() {
        Ok(seq![])
    } else {
        match threads_stmts(ts, (n - 1) as nat, vm) {
            Err(e) => Err(e),
            Ok(p) => match ts[n - 1] {
                JsonV::Array(bs) => match thread_stmts(bs, vm) {
                    Err(e) => Err(e),
                    Ok(s) => Ok(p + s),
                },
                _ => Err(ErrorKind::Parse),
            },
        }
    }
}

/// The statements of a whole script: an array of threads, each an array of
/// blocks.
/// Thread `k` is not an array, and every thread before it reads.
pub open spec fn bad_thread(a: Seq<JsonV>, k: int, vm: VarMapV) -> bool {
    0 <= k < a.len() && !(a[k] is Array) && threads_stmts(a, k as nat, vm) is Ok
}

pub open spec fn script_stmts(v: JsonV, vm: VarMapV) -> Result<Seq<StmtV>, ErrorKind> {
    match v {
        JsonV::Array(ts) => threads_stmts(ts, ts.len(), vm),
        _ => Err(ErrorKind::Parse),
    }
}

// ---------------------------------------------------------------------------
// Reading a script
// ---------------------------------------------------------------------------

fn trigger_name_of(b: &Block) -> (r: Option<&'static str>)
    ensures
        match r {
            Some(n) => trigger_name(b@) == Some(n@),
            None => trigger_name(b@) is None,
        },
{
    match b {
        Block::Basic { kind, .. } => {
            if *kind == BasicKind::WhenStart {
                Some("when_start")
            } else if *kind == BasicKind::WhenClick {
                Some("when_click")
            } else if *kind == BasicKind::WhenCloneStart {
                Some("when_clone_start")
            } else if *kind == BasicKind::WhenSceneStart {
                Some("when_scene_start")
            } else if *kind == BasicKind::WhenMessageRecv {
                Some("when_message")
            } else {
                None
            }
        },
        _ => None,
    }
}

/// Reads the blocks `vs[lo..]`.
fn decode_rest(vs: &Vec<Json>, lo: usize, vars: &VarMap) -> (r: crate::error::Result<Vec<Block>>)
    requires
        lo <= vs@.len(),
    ensures
        agrees(
            r,
            decode_blocks(json_views(vs@).skip(lo as int), (vs@.len() - lo) as nat, vars@),
            |v: Vec<Block>| block_views(v@),
        ),
{
    let ghost jv = json_views(vs@).skip(lo as int);
    let mut out: Vec<Block> = Vec::new();
    let mut i: usize = lo;
    proof {
        assert(block_views(out@) =~= Seq::<BlockV>::empty());
    }
    while i < vs.len()
        invariant
            lo <= i <= vs@.len(),
            jv == json_views(vs@).skip(lo as int),
            decode_blocks(jv, (i - lo) as nat, vars@) == Ok::<Seq<BlockV>, ErrorKind>(block_views(out@)),
        decreases vs.len() - i,
    {
        proof {
            assert(jv[i - lo] == vs@[i as int]@);
        }
        match block_from_value(&vs[i], vars) {
            Ok(b) => {
                let ghost before = out@;
                out.push(b);
                proof {
                    assert(block_views(out@) =~= block_views(before).push(b@));
                }
            },
            Err(e) => {
                proof {
                    lemma_decode_err(jv, (i + 1 - lo) as nat, jv.len(), vars@);
                }
                return Err(e);
            },
        }
        i = i + 1;
    }
    Ok(out)
}

proof fn lemma_decode_err(vs: Seq<JsonV>, a: nat, b: nat, vm: VarMapV)
    requires
        a <= b <= vs.len(),
        decode_blocks(vs, a, vm) is Err,
    ensures
        decode_blocks(vs, b, vm) == decode_blocks(vs, a, vm),
    decreases b,
{
    if a < b {
        lemma_decode_err(vs, a, (b - 1) as nat, vm);
    }
}

proof fn lemma_plain_err(vs: Seq<JsonV>, a: nat, b: nat, vm: VarMapV)
    requires
        a <= b <= vs.len(),
        plain_stmts(vs, a, vm) is Err,
    ensures
        plain_stmts(vs, b, vm) == plain_stmts(vs, a, vm),
    decreases b,
{
    if a < b {
        lemma_plain_err(vs, a, (b - 1) as nat, vm);
    }
}

proof fn lemma_raise_err(bs: Seq<BlockV>, a: nat, b: nat)
    requires
        a <= b <= bs.len(),
        raise_blocks(bs, a) is Err,
    ensures
        raise_blocks(bs, b) == raise_blocks(bs, a),
    decreases b,
{
    if a < b {
        lemma_raise_err(bs, a, (b - 1) as nat);
    }
}

proof fn lemma_threads_err(ts: Seq<JsonV>, a: nat, b: nat, vm: VarMapV)
    requires
        a <= b <= ts.len(),
        threads_stmts(ts, a, vm) is Err,
    ensures
        threads_stmts(ts, b, vm) == threads_stmts(ts, a, vm),
    decreases b,
{
    if a < b {
        lemma_threads_err(ts, a, (b - 1) as nat, vm);
    }
}

/// Each block of the thread read and turned into statements in turn.
fn plain_thread(vs: &Vec<Json>, vars: &VarMap, out: &mut Vec<Stmt>) -> (r: crate::error::Result<()>)
    ensures
        match plain_stmts(json_views(vs@), vs@.len(), vars@) {
            Ok(s) => r is Ok && stmt_views(final(out)@) == stmt_views(old(out)@) + s,
            Err(k) => r matches Err(e) && e.kind() == k,
        },
{
    let ghost jv = json_views(vs@);
    let ghost start = stmt_views(out@);
    let mut i: usize = 0;
    proof {
        assert(start =~= start + Seq::<StmtV>::empty());
    }
    while i < vs.len()
        invariant
            i <= vs@.len(),
            jv == json_views(vs@),
            plain_stmts(jv, i as nat, vars@) matches Ok(s) && stmt_views(out@) == start + s,
        decreases vs.len() - i,
    {
        proof {
            assert(jv[i as int] == vs@[i as int]@);
        }
        let ghost prev = plain_stmts(jv, i as nat, vars@)->Ok_0;
        match block_from_value(&vs[i], vars) {
            Ok(b) => {
                let ghost before = stmt_views(out@);
                match from_block_owned(&b, out, vars) {
                    Ok(()) => {
                        proof {
                            assert(stmt_views(out@) =~= start + (prev + raise_block(b@).unwrap()));
                        }
                    },
                    Err(e) => {
                        proof {
                            lemma_plain_err(jv, (i + 1) as nat, jv.len(), vars@);
                        }
                        return Err(e);
                    },
                }
            },
            Err(e) => {
                proof {
                    lemma_plain_err(jv, (i + 1) as nat, jv.len(), vars@);
                }
                return Err(e);
            },
        }
        i = i + 1;
    }
    Ok(())
}

/// The statements of one thread, appended to `out`.
fn thread_into(vs: &Vec<Json>, vars: &VarMap, out: &mut Vec<Stmt>) -> (r: crate::error::Result<()>)
    ensures
        match thread_stmts(json_views(vs@), vars@) {
            Ok(s) => r is Ok && stmt_views(final(out)@) == stmt_views(old(out)@) + s,
            Err(k) => r matches Err(e) && e.kind() == k,
        },
{
    let ghost jv = json_views(vs@);
    if vs.len() == 0 {
        proof {
            assert(stmt_views(out@) =~= stmt_views(out@) + Seq::<StmtV>::empty());
        }
        return Ok(());
    }
    proof {
        assert(jv[0] == vs@[0]@);
    }
    let first = match block_from_value(&vs[0], vars) {
        Ok(b) => b,
        Err(e) => return Err(e),
    };
    let name = match trigger_name_of(&first) {
        Some(n) => n,
        None => return plain_thread(vs, vars, out),
    };
    let rest = match decode_rest(vs, 1, vars) {
        Ok(r) => r,
        Err(_) => return plain_thread(vs, vars, out),
    };
    proof {
        assert(jv.skip(1) == json_views(vs@).skip(1));
    }
    let body = match crate::raise::body_stmts(&rest, vars) {
        Ok(b) => b,
        Err(e) => return Err(e),
    };
    let ghost o = stmt_views(out@);
    let params: Vec<(String, crate::ir::ParamKind)> = Vec::new();
    proof {
        crate::ir::lemma_body_view(body);
        assert(params@.map_values(|q: (String, crate::ir::ParamKind)| (q.0@, q.1)) =~= seq![]);
    }
    let f = Stmt::FuncDef { name: name.to_owned(), params, return_type: None, body };
    proof {
        assert(f@ == StmtV::FuncDef(name@, seq![], None, stmt_views(body@)));
    }
    out.push(f);
    proof {
        assert(stmt_views(out@) =~= o + seq![f@]);
    }
    Ok(())
}

/// The statements of an object's script: an array of threads, each an array
/// of blocks. A thread that opens with a trigger becomes a function named
/// after the trigger; an empty thread gives nothing.
pub fn from_script(value: &Json, vars: &VarMap) -> (r: crate::error::Result<Vec<Stmt>>)
    ensures
        agrees(r, script_stmts(value@, vars@), |v: Vec<Stmt>| stmt_views(v@)),
        !(value@ is Array) ==> (r matches Err(e) && e is Parse && e.text() == "script root must be array"@),
        (value@ matches JsonV::Array(a) && exists|k: int| bad_thread(a, k, vars@)) ==> (r matches Err(e) && e is Parse
            && e.text() == "script thread must be array"@),
{
    let threads = match value.as_array() {
        Some(a) => a,
        None => return Err(Error::Parse("script root must be array".to_owned())),
    };
    let ghost tv = json_views(threads@);
    let mut out: Vec<Stmt> = Vec::new();
    let mut i: usize = 0;
    proof {
        assert(stmt_views(out@) =~= Seq::<StmtV>::empty());
    }
    while i < threads.len()
        invariant
            i <= threads@.len(),
            tv == json_views(threads@),
            value@ == JsonV::Array(tv),
            threads_stmts(tv, i as nat, vars@) == Ok::<Seq<StmtV>, ErrorKind>(stmt_views(out@)),
            forall|k: int| 0 <= k < i ==> tv[k] is Array,
        decreases threads.len() - i,
    {
        proof {
            assert(tv[i as int] == threads@[i as int]@);
        }
        let blocks = match threads[i].as_array() {
            Some(b) => b,
            None => {
                proof {
                    lemma_threads_err(tv, (i + 1) as nat, tv.len(), vars@);
                    assert forall|k: int| bad_thread(tv, k, vars@) implies k == i by {
                        if k > i {
                            lemma_threads_err(tv, (i + 1) as nat, k as nat, vars@);
                        }
                    }
                }
                return Err(Error::Parse("script thread must be array".to_owned()));
            },
        };
        match thread_into(blocks, vars, &mut out) {
            Ok(()) => {},
            Err(e) => {
                proof {
                    lemma_threads_err(tv, (i + 1) as nat, tv.len(), vars@);
                    assert forall|k: int| !bad_thread(tv, k, vars@) by {
                        if k > i && k < tv.len() {
                            lemma_threads_err(tv, (i + 1) as nat, k as nat, vars@);
                        }
                    }
                }
                return Err(e);
            },
        }
        i = i + 1;
    }
    Ok(out)
}

/// The program of a script value, with the variables of `vars`.
pub fn program_from_script_value_with_vars(v: &Json, vars: &VarMap) -> (r: crate::error::Result<Program>)
    ensures
        agrees(r, script_stmts(v@, vars@), |p: Program| stmt_views(p.stmts@)),
        !(v@ is Array) ==> (r matches Err(e) && e is Parse && e.text() == "script root must be array"@),
        (v@ matches JsonV::Array(a) && exists|k: int| bad_thread(a, k, vars@)) ==> (r matches Err(e) && e is Parse
            && e.text() == "script thread must be array"@),
{
    match from_script(v, vars) {
        Ok(stmts) => Ok(Program { stmts }),
        Err(e) => Err(e),
    }
}

/// The program of a script value, with no known variables.
pub fn program_from_script_value(v: &Json) -> (r: crate::error::Result<Program>)
    ensures
        agrees(r, script_stmts(v@, no_vars()), |p: Program| stmt_views(p.stmts@)),
        !(v@ is Array) ==> (r matches Err(e) && e is Parse && e.text() == "script root must be array"@),
        (v@ matches JsonV::Array(a) && exists|k: int| bad_thread(a, k, no_vars())) ==> (r matches Err(e) && e is Parse
            && e.text() == "script thread must be array"@),
{
    let vars = VarMap::new();
    program_from_script_value_with_vars(v, &vars)
}

/// The table with no variables.
pub open spec fn no_vars() -> VarMapV {
    VarMapV { ids: Map::empty(), names: Map::empty() }
}

/// The statements of a script written as JSON text: `Parse` when the text
/// is no JSON document.
pub open spec fn script_text_stmts(s: Seq<char>, vm: VarMapV) -> Result<Seq<StmtV>, ErrorKind> {
    match json_text_value(s) {
        Some(v) => script_stmts(v, vm),
        None => Err(ErrorKind::Parse),
    }
}

/// The program of a script given as JSON text, with the variables of `vars`.
pub fn program_from_script_string_with_vars(s: &str, vars: &VarMap) -> (r: crate::error::Result<Program>)
    ensures
        agrees(r, script_text_stmts(s@, vars@), |p: Program| stmt_views(p.stmts@)),
        json_text_value(s@) matches Some(v) ==> (!(v is Array) ==> (r matches Err(e) && e is Parse && e.text()
            == "script root must be array"@)),
        json_text_value(s@) matches Some(v) ==> ((v matches JsonV::Array(a) && exists|k: int| bad_thread(a, k, vars@))
            ==> (r matches Err(e) && e is Parse && e.text() == "script thread must be array"@)),
{
    match parse_json(s) {
        Ok(v) => program_from_script_value_with_vars(&v, vars),
        Err(m) => Err(Error::Parse(m)),
    }
}

/// The program of a script given as JSON text, with no known variables.
pub fn program_from_script_string(s: &str) -> (r: crate::error::Result<Program>)
    ensures
        agrees(r, script_text_stmts(s@, no_vars()), |p: Program| stmt_views(p.stmts@)),
        json_text_value(s@) matches Some(v) ==> (!(v is Array) ==> (r matches Err(e) && e is Parse && e.text()
            == "script root must be array"@)),
        json_text_value(s@) matches Some(v) ==> ((v matches JsonV::Array(a) && exists|k: int| bad_thread(a, k, no_vars()))
            ==> (r matches Err(e) && e is Parse && e.text() == "script thread must be array"@)),
{
    let vars = VarMap::new();
    program_from_script_string_with_vars(s, &vars)
}

// ---------------------------------------------------------------------------
// Model: asset ids back to names
// ---------------------------------------------------------------------------

pub open spec fn sound_name(am: AssetMapV, obj: Seq<char>, id: Seq<char>) -> Option<Seq<char>> {
    if am.objects.contains_key(unicode_lower(obj)) {
        lookup(am.objects[unicode_lower(obj)].sounds.by_id, id)
    } else {
        None
    }
}

pub open spec fn picture_name(am: AssetMapV, obj: Seq<char>, id: Seq<char>) -> Option<Seq<char>> {
    if am.objects.contains_key(unicode_lower(obj)) {
        lookup(am.objects[unicode_lower(obj)].pictures.by_id, id)
    } else {
        None
    }
}

pub open spec fn object_name(am: AssetMapV, id: Seq<char>) -> Option<Seq<char>> {
    if is_passthrough(id) {
        Some(id)
    } else {
        lookup(am.object_ids.by_id, id)
    }
}

/// Which table an argument's id is looked up in.
#[derive(Clone, Copy)]
pub enum IdTable {
    Sound,
    Picture,
    Object,
}

pub open spec fn table_name(am: AssetMapV, obj: Seq<char>, t: IdTable, id: Seq<char>) -> Option<Seq<char>> {
    match t {
        IdTable::Sound => sound_name(am, obj, id),
        IdTable::Picture => picture_name(am, obj, id),
        IdTable::Object => object_name(am, id),
    }
}

/// Argument `i`, when it is a text literal holding an id that the table
/// knows, replaced by the name.
pub open spec fn named_arg(args: Seq<ExprV>, i: int, am: AssetMapV, obj: Seq<char>, t: IdTable) -> Seq<ExprV> {
    if 0 <= i < args.len() && args[i] is Str && table_name(am, obj, t, args[i]->Str_0) is Some {
        args.update(i, ExprV::Str(table_name(am, obj, t, args[i]->Str_0).unwrap()))
    } else {
        args
    }
}

/// Position of the object argument of a value-returning call.
pub open spec fn object_arg_in_expr(name: Seq<char>) -> Option<int> {
    if name == "create_clone"@ || name == "see_angle_object"@ || name == "locate"@ || name
        == "distance_something"@ || name == "reach_something"@ {
        Some(0)
    } else if name == "locate_object_time"@ || name == "coordinate_object"@ {
        Some(1)
    } else {
        None
    }
}

/// Asset ids inside an expression that is a call, recursively through the
/// call's arguments.
pub open spec fn resolve_expr(e: ExprV, am: AssetMapV, obj: Seq<char>) -> ExprV
    decreases e, 1int,
{
    match e {
        ExprV::Call(name, arity, args) => {
            let inner = resolve_args(args, am, obj);
            let a1 = if name == "get_sound_duration"@ {
                named_arg(inner, 0, am, obj, IdTable::Sound)
            } else {
                inner
            };
            let a2 = match object_arg_in_expr(name) {
                Some(k) => named_arg(a1, k, am, obj, IdTable::Object),
                None => a1,
            };
            ExprV::Call(name, arity, a2)
        },
        _ => e,
    }
}

/// Each argument with its asset ids named.
pub open spec fn resolve_args(args: Seq<ExprV>, am: AssetMapV, obj: Seq<char>) -> Seq<ExprV>
    decreases args, 0int,
{
    Seq::new(args.len(), |i: int| if 0 <= i < args.len() { resolve_expr(args[i], am, obj) } else { args[i] })
}

pub open spec fn is_sound_call(name: Seq<char>) -> bool {
    name == "sound_something_with_block"@ || name == "sound_something_second_with_block"@ || name
        == "sound_from_to"@ || name == "sound_something_wait_with_block"@ || name
        == "sound_something_second_wait_with_block"@ || name == "sound_from_to_and_wait"@ || name
        == "play_bgm"@ || name == "get_sound_duration"@
}

pub open spec fn is_object_call_first(name: Seq<char>) -> bool {
    name == "create_clone"@ || name == "see_angle_object"@ || name == "locate"@ || name == "reach_something"@
}

pub open spec fn is_object_call_second(name: Seq<char>) -> bool {
    name == "locate_object_time"@ || name == "coordinate_object"@ || name == "distance_something"@
}

/// A call made as a statement: only its own asset argument is named.
pub open spec fn resolve_call_stmt(name: Seq<char>, arity: nat, args: Seq<ExprV>, am: AssetMapV, obj: Seq<char>) -> StmtV {
    if name == "change_to_some_shape"@ {
        StmtV::Expr(ExprV::Call(name, arity, named_arg(args, 0, am, obj, IdTable::Picture)))
    } else if is_sound_call(name) {
        StmtV::Expr(ExprV::Call(name, arity, named_arg(args, 0, am, obj, IdTable::Sound)))
    } else if is_object_call_first(name) {
        StmtV::Expr(ExprV::Call(name, arity, named_arg(args, 0, am, obj, IdTable::Object)))
    } else if is_object_call_second(name) {
        StmtV::Expr(ExprV::Call(name, arity, named_arg(args, 1, am, obj, IdTable::Object)))
    } else {
        StmtV::Expr(ExprV::Call(name, arity, args))
    }
}

/// Asset ids of a statement: the value of a declaration or assignment,
/// a call made as a statement, and the bodies of functions, `if`, `while`,
/// counted repeats, `for` and endless loops.
pub open spec fn resolve_stmt(s: StmtV, am: AssetMapV, obj: Seq<char>) -> StmtV
    decreases s, 1int,
{
    match s {
        StmtV::SetVar(n, id, e) => StmtV::SetVar(n, id, resolve_expr(e, am, obj)),
        StmtV::VarDecl(n, e, k, sc) => StmtV::VarDecl(n, resolve_expr(e, am, obj), k, sc),
        StmtV::Expr(ExprV::Call(name, arity, args)) => resolve_call_stmt(name, arity, args, am, obj),
        StmtV::FuncDef(n, ps, rt, body) => StmtV::FuncDef(n, ps, rt, resolve_body(body, am, obj)),
        StmtV::If(c, t, e) => StmtV::If(c, resolve_body(t, am, obj), resolve_body(e, am, obj)),
        StmtV::While(c, b) => StmtV::While(c, resolve_body(b, am, obj)),
        StmtV::Repeat(c, b) => StmtV::Repeat(c, resolve_body(b, am, obj)),
        StmtV::For(v, it, b) => StmtV::For(v, it, resolve_body(b, am, obj)),
        StmtV::Loop(b) => StmtV::Loop(resolve_body(b, am, obj)),
        _ => s,
    }
}

pub open spec fn resolve_body(b: Seq<StmtV>, am: AssetMapV, obj: Seq<char>) -> Seq<StmtV>
    decreases b, 0int,
{
    Seq::new(b.len(), |i: int| if 0 <= i < b.len() { resolve_stmt(b[i], am, obj) } else { b[i] })
}

// ---------------------------------------------------------------------------
// Naming asset ids
// ---------------------------------------------------------------------------

fn table_name_of<'a>(assets: &'a AssetMap, obj: &str, t: IdTable, id: &'a str) -> (r: Option<&'a str>)
    ensures
        crate::asset::str_opt(r) == table_name(assets@, obj@, t, id@),
{
    match t {
        IdTable::Sound => assets.sound_name_by_id(obj, id),
        IdTable::Picture => assets.picture_name_by_id(obj, id),
        IdTable::Object => assets.object_name_by_id(id),
    }
}

/// Replaces argument `i` by its name when it is a text literal holding an id
/// that the table knows.
fn name_arg(args: &mut Vec<Expr>, i: usize, assets: &AssetMap, obj: &str, t: IdTable)
    ensures
        expr_views(final(args)@) == named_arg(expr_views(old(args)@), i as int, assets@, obj@, t),
{
    if i < args.len() {
        let found: Option<String> = match &args[i] {
            Expr::Str(id) => match table_name_of(assets, obj, t, id.as_str()) {
                Some(n) => Some(n.to_owned()),
                None => None,
            },
            _ => None,
        };
        proof {
            assert(expr_views(args@)[i as int] == args@[i as int]@);
        }
        if let Some(n) = found {
            let ghost before = expr_views(args@);
            args.set(i, Expr::Str(n));
            proof {
                assert(expr_views(args@) =~= before.update(i as int, ExprV::Str(n@)));
            }
        }
    }
}

fn object_arg_index(name: &str) -> (r: Option<usize>)
    ensures
        match r {
            Some(k) => object_arg_in_expr(name@) == Some(k as int),
            None => object_arg_in_expr(name@) is None,
        },
{
    if str_is(name, "create_clone") || str_is(name, "see_angle_object") || str_is(name, "locate")
        || str_is(name, "distance_something") || str_is(name, "reach_something") {
        Some(0)
    } else if str_is(name, "locate_object_time") || str_is(name, "coordinate_object") {
        Some(1)
    } else {
        None
    }
}

fn resolve_expr_owned(e: Expr, assets: &AssetMap, obj: &str) -> (r: Expr)
    ensures
        r@ == resolve_expr(e@, assets@, obj@),
    decreases e@, 1int,
{
    match e {
        Expr::Call(f, args) => {
            let ghost av = expr_views(args@);
            proof {
                crate::ir::lemma_call_view(f, args);
            }
            let ghost ev = e@;
            let mut rest = args;
            let mut inner: Vec<Expr> = Vec::new();
            let ghost n = av.len();
            while rest.len() > 0
                invariant
                    ev == e@,
                    ev == ExprV::Call(f.name@, f.arity as nat, av),
                    n == av.len(),
                    inner@.len() + rest@.len() == n,
                    expr_views(rest@) == av.skip(inner@.len() as int),
                    forall|i: int| 0 <= i < inner@.len() ==> #[trigger] inner@[i]@ == resolve_expr(av[i], assets@, obj@),
                decreases rest.len(),
            {
                let ghost k = inner@.len() as int;
                let ghost old_rest = rest@;
                proof {
                    assert(expr_views(rest@)[0] == av[k]);
                    assert(decreases_to!(ev => ev->Call_2));
                    assert(decreases_to!(av => av[k]));
                }
                let a = rest.remove(0);
                proof {
                    assert forall|j: int| 0 <= j < rest@.len() implies #[trigger] expr_views(rest@)[j] == av.skip(k + 1)[j] by {
                        assert(rest@[j] == old_rest[j + 1]);
                        assert(expr_views(old_rest)[j + 1] == av.skip(k)[j + 1]);
                    }
                    assert(expr_views(rest@) =~= av.skip(k + 1));
                }
                let x = resolve_expr_owned(a, assets, obj);
                inner.push(x);
            }
            let ghost spec_inner = resolve_args(av, assets@, obj@);
            proof {
                assert(expr_views(inner@) =~= spec_inner);
            }
            let ghost a1 = if f.name@ == "get_sound_duration"@ {
                named_arg(spec_inner, 0, assets@, obj@, IdTable::Sound)
            } else {
                spec_inner
            };
            let ghost a2 = match object_arg_in_expr(f.name@) {
                Some(k) => named_arg(a1, k, assets@, obj@, IdTable::Object),
                None => a1,
            };
            if str_is(f.name.as_str(), "get_sound_duration") {
                name_arg(&mut inner, 0, assets, obj, IdTable::Sound);
            }
            assert(expr_views(inner@) == a1);
            match object_arg_index(f.name.as_str()) {
                Some(k) => name_arg(&mut inner, k, assets, obj, IdTable::Object),
                None => {},
            }
            assert(expr_views(inner@) == a2);
            proof {
                crate::ir::lemma_call_view(f, inner);
                assert(resolve_expr(ev, assets@, obj@) == ExprV::Call(f.name@, f.arity as nat, a2));
            }
            Expr::Call(f, inner)
        },
        other => other,
    }
}

fn is_sound_call_of(name: &str) -> (r: bool)
    ensures
        r == is_sound_call(name@),
{
    str_is(name, "sound_something_with_block") || str_is(name, "sound_something_second_with_block")
        || str_is(name, "sound_from_to") || str_is(name, "sound_something_wait_with_block")
        || str_is(name, "sound_something_second_wait_with_block") || str_is(name, "sound_from_to_and_wait")
        || str_is(name, "play_bgm") || str_is(name, "get_sound_duration")
}

fn resolve_stmt_owned(s: Stmt, assets: &AssetMap, obj: &str) -> (r: Stmt)
    ensures
        r@ == resolve_stmt(s@, assets@, obj@),
    decreases s@, 1int,
{
    let ghost sv = s@;
    match s {
        Stmt::SetVar(v, e) => Stmt::SetVar(v, resolve_expr_owned(e, assets, obj)),
        Stmt::VarDecl(n, e, k, sc) => Stmt::VarDecl(n, resolve_expr_owned(e, assets, obj), k, sc),
        Stmt::Expr(Expr::Call(f, args)) => {
            proof {
                crate::ir::lemma_call_view(f, args);
            }
            let mut args = args;
            let name = f.name.as_str();
            if str_is(name, "change_to_some_shape") {
                name_arg(&mut args, 0, assets, obj, IdTable::Picture);
            } else if is_sound_call_of(name) {
                name_arg(&mut args, 0, assets, obj, IdTable::Sound);
            } else if str_is(name, "create_clone") || str_is(name, "see_angle_object") || str_is(name, "locate")
                || str_is(name, "reach_something") {
                name_arg(&mut args, 0, assets, obj, IdTable::Object);
            } else if str_is(name, "locate_object_time") || str_is(name, "coordinate_object") || str_is(
                name,
                "distance_something",
            ) {
                name_arg(&mut args, 1, assets, obj, IdTable::Object);
            }
            proof {
                crate::ir::lemma_call_view(f, args);
            }
            Stmt::Expr(Expr::Call(f, args))
        },
        Stmt::FuncDef { name, params, return_type, body } => {
            proof {
                crate::ir::lemma_body_view(body);
                assert(decreases_to!(sv => sv->FuncDef_3));
            }
            let b = resolve_body_owned(body, assets, obj);
            proof {
                crate::ir::lemma_body_view(b);
            }
            Stmt::FuncDef { name, params, return_type, body: b }
        },
        Stmt::If { cond, then_body, else_body } => {
            proof {
                crate::ir::lemma_body_view(then_body);
                crate::ir::lemma_body_view(else_body);
                assert(decreases_to!(sv => sv->If_1));
                assert(decreases_to!(sv => sv->If_2));
            }
            let t = resolve_body_owned(then_body, assets, obj);
            let f = resolve_body_owned(else_body, assets, obj);
            proof {
                crate::ir::lemma_body_view(t);
                crate::ir::lemma_body_view(f);
            }
            Stmt::If { cond, then_body: t, else_body: f }
        },
        Stmt::While { cond, body } => {
            proof {
                crate::ir::lemma_body_view(body);
                assert(decreases_to!(sv => sv->While_1));
            }
            let b = resolve_body_owned(body, assets, obj);
            proof {
                crate::ir::lemma_body_view(b);
            }
            Stmt::While { cond, body: b }
        },
        Stmt::Repeat { times, body } => {
            proof {
                crate::ir::lemma_body_view(body);
                assert(decreases_to!(sv => sv->Repeat_1));
            }
            let b = resolve_body_owned(body, assets, obj);
            proof {
                crate::ir::lemma_body_view(b);
            }
            Stmt::Repeat { times, body: b }
        },
        Stmt::For { var, iter, body } => {
            proof {
                crate::ir::lemma_body_view(body);
                assert(decreases_to!(sv => sv->For_2));
            }
            let b = resolve_body_owned(body, assets, obj);
            proof {
                crate::ir::lemma_body_view(b);
            }
            Stmt::For { var, iter, body: b }
        },
        Stmt::Loop { body } => {
            proof {
                crate::ir::lemma_body_view(body);
                assert(decreases_to!(sv => sv->Loop_0));
            }
            let b = resolve_body_owned(body, assets, obj);
            proof {
                crate::ir::lemma_body_view(b);
            }
            Stmt::Loop { body: b }
        },
        other => other,
    }
}

fn resolve_body_owned(body: Vec<Stmt>, assets: &AssetMap, obj: &str) -> (r: Vec<Stmt>)
    ensures
        stmt_views(r@) == resolve_body(stmt_views(body@), assets@, obj@),
    decreases stmt_views(body@), 0int,
{
    let ghost bv = stmt_views(body@);
    let mut rest = body;
    let mut out: Vec<Stmt> = Vec::new();
    let ghost n = bv.len();
    while rest.len() > 0
        invariant
            bv == stmt_views(body@),
            n == bv.len(),
            out@.len() + rest@.len() == n,
            stmt_views(rest@) == bv.skip(out@.len() as int),
            forall|i: int| 0 <= i < out@.len() ==> #[trigger] out@[i]@ == resolve_stmt(bv[i], assets@, obj@),
        decreases rest.len(),
    {
        let ghost k = out@.len() as int;
        let ghost old_rest = rest@;
        proof {
            assert(stmt_views(rest@)[0] == bv[k]);
            assert(decreases_to!(bv => bv[k]));
        }
        let s = rest.remove(0);
        proof {
            assert forall|j: int| 0 <= j < rest@.len() implies #[trigger] stmt_views(rest@)[j] == bv.skip(k + 1)[j] by {
                assert(rest@[j] == old_rest[j + 1]);
                assert(stmt_views(old_rest)[j + 1] == bv.skip(k)[j + 1]);
            }
            assert(stmt_views(rest@) =~= bv.skip(k + 1));
        }
        let x = resolve_stmt_owned(s, assets, obj);
        out.push(x);
    }
    proof {
        assert(stmt_views(out@) =~= resolve_body(bv, assets@, obj@));
    }
    out
}

/// Turns the asset ids of an object's program back into the names that the
/// source language uses: sound, picture and object arguments of the calls
/// that take them.
pub fn resolve_asset_ids(program: Program, assets: &AssetMap, object_name: &str) -> (r: Program)
    ensures
        stmt_views(r.stmts@) == resolve_body(stmt_views(program.stmts@), assets@, object_name@),
{
    Program { stmts: resolve_body_owned(program.stmts, assets, object_name) }
}

/// The program of a script value, with its asset ids turned into names.
pub fn program_from_script_value_with_vars_and_assets(
    v: &Json,
    vars: &VarMap,
    assets: &AssetMap,
    object_name: &str,
) -> (r: crate::error::Result<Program>)
    ensures
        match script_stmts(v@, vars@) {
            Ok(s) => r matches Ok(p) && stmt_views(p.stmts@) == resolve_body(s, assets@, object_name@),
            Err(k) => r matches Err(e) && e.kind() == k,
        },
{
    match program_from_script_value_with_vars(v, vars) {
        Ok(p) => Ok(resolve_asset_ids(p, assets, object_name)),
        Err(e) => Err(e),
    }
}

/// The program of a script given as JSON text, with its asset ids turned
/// into names.
pub fn program_from_script_string_with_vars_and_assets(
    s: &str,
    vars: &VarMap,
    assets: &AssetMap,
    object_name: &str,
) -> (r: crate::error::Result<Program>)
    ensures
        match script_text_stmts(s@, vars@) {
            Ok(x) => r matches Ok(p) && stmt_views(p.stmts@) == resolve_body(x, assets@, object_name@),
            Err(k) => r matches Err(e) && e.kind() == k,
        },
        json_text_value(s@) matches Some(v) ==> (!(v is Array) ==> (r matches Err(e) && e is Parse && e.text()
            == "script root must be array"@)),
        json_text_value(s@) matches Some(v) ==> ((v matches JsonV::Array(a) && exists|k: int| bad_thread(a, k, vars@))
            ==> (r matches Err(e) && e is Parse && e.text() == "script thread must be array"@)),
{
    with_asset_names(program_from_script_string_with_vars(s, vars), assets, object_name)
}

/// A program read from a script, with asset ids turned back into the
/// object's names; an error of the read is passed on as it is.
pub fn with_asset_names(read: crate::error::Result<Program>, assets: &AssetMap, object_name: &str) -> (r: crate::error::Result<Program>)
    ensures
        read is Err ==> r == read,
        read matches Ok(p) ==> (r matches Ok(q) && stmt_views(q.stmts@) == resolve_body(stmt_views(p.stmts@), assets@, object_name@)),
{
    match read {
        Ok(p) => Ok(resolve_asset_ids(p, assets, object_name)),
        Err(e) => Err(e),
    }
}

} // verus!
