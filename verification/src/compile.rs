//! From source files and a base project to a finished Entry project.
//!
//! Each source file belongs to the object whose name matches the file's stem
//! (ignoring ASCII case); its trigger functions become that object's script
//! threads, its other functions become project functions, and its variables
//! join the project's variables by id. A file with no matching object gets a
//! new object. Statements that have no Entry block are left out and reported
//! by message instead of failing the build.

use vstd::prelude::*;
use crate::block::kinds::BasicKind;
use crate::block::{Block, BlockV, SlotValue, SlotV};
use crate::block::encode::{enc_block, to_value};
use crate::block::lower::{from_stmt, low_stmt};
use crate::error::{Error, ErrorKind};
use crate::ir::{ParamKind, Program, Stmt, StmtV, stmt_views};
use crate::json::{json_views, Json, JsonV};
use crate::parse::{conv_items, parse_file, parse_file_with_triggers, SourceFile, TriggerDef, TriggerV, trigger_views};
use crate::codegen::{body_events, event_names, var_map_of, program_events, collect_var_map, program_names, names_of_events};
use crate::json::jremove;
use crate::text::{str_is, owned, dec_text, lower_ascii};
use crate::json::{assoc, jget, jstr, jarr, serde_text, jset};
use crate::var::{info_ref_views, lists_vars, VarInfo, VarInfoV, VarInit, VarKind, VarMap};
use crate::block::names::id_text;

verus! {

/// A function of the project: name, parameter names, body blocks.
#[derive(Debug)]
pub struct FunctionDef {
    pub name: String,
    pub params: Vec<String>,
    pub body: Vec<Json>,
}

/// Model of a project function.
pub struct FunctionV {
    pub name: Seq<char>,
    pub params: Seq<Seq<char>>,
    pub body: Seq<JsonV>,
}

impl View for FunctionDef {
    type V = FunctionV;

    open spec fn view(&self) -> FunctionV {
        FunctionV { name: self.name@, params: self.params@.map_values(|s: String| s@), body: json_views(self.body@) }
    }
}

/// What one source file gives: script threads, project functions, and the
/// names of the messages its triggers wait for.
#[derive(Debug)]
pub struct ThreadsAndHelpers {
    pub threads: Vec<Vec<Json>>,
    pub helpers: Vec<FunctionDef>,
    pub messages: Vec<String>,
}

pub open spec fn thread_views(t: Seq<Vec<Json>>) -> Seq<Seq<JsonV>> {
    t.map_values(|v: Vec<Json>| json_views(v@))
}

pub open spec fn function_views(f: Seq<FunctionDef>) -> Seq<FunctionV> {
    f.map_values(|x: FunctionDef| x@)
}

pub open spec fn string_views(v: Seq<String>) -> Seq<Seq<char>> {
    v.map_values(|s: String| s@)
}

// ---------------------------------------------------------------------------
// Model: threads and functions of one source file
// ---------------------------------------------------------------------------

/// The blocks of the first `n` statements. A statement without an Entry
/// block is left out; any other failure stops the work.
pub open spec fn kept_blocks(ss: Seq<StmtV>, n: nat) -> Result<Seq<JsonV>, ErrorKind>
    decreases n,
{
    if n == 0 || n > ss.len() {
        Ok(seq![])
    } else {
        match kept_blocks(ss, (n - 1) as nat) {
            Err(k) => Err(k),
            Ok(p) => match low_stmt(ss[n - 1]) {
                Ok(b) => Ok(p.push(enc_block(b))),
                Err(ErrorKind::Unmapped) => Ok(p),
                Err(k) => Err(k),
            },
        }
    }
}

/// The block that opens a trigger's thread; `None` for a function that is
/// no trigger. Unknown `when_` names start on the start button.
pub open spec fn trigger_block(name: Seq<char>, params: Seq<Seq<char>>) -> Option<BlockV> {
    if name == "when_start"@ || name == "when_run"@ {
        Some(BlockV::Basic(BasicKind::WhenStart, seq![]))
    } else if name == "when_click"@ || name == "when_object_click"@ {
        Some(BlockV::Basic(BasicKind::WhenClick, seq![]))
    } else if name == "when_clone_start"@ {
        Some(BlockV::Basic(BasicKind::WhenCloneStart, seq![]))
    } else if name == "when_message"@ || name == "when_message_cast"@ {
        Some(BlockV::Basic(BasicKind::WhenMessageRecv, seq![SlotV::Name(if params.len() > 0 { params[0] } else { seq![] })]))
    } else if crate::parse::is_trigger_name(name) {
        Some(BlockV::Basic(BasicKind::WhenStart, seq![]))
    } else {
        None
    }
}

/// The threads and message names of the first `n` triggers.
pub open spec fn trigger_threads(ts: Seq<TriggerV>, n: nat) -> Result<(Seq<Seq<JsonV>>, Seq<Seq<char>>), ErrorKind>
    decreases n,
{
    if n == 0 || n > ts.len() {
        Ok((seq![], seq![]))
    } else {
        match trigger_threads(ts, (n - 1) as nat) {
            Err(k) => Err(k),
            Ok((th, ms)) => {
                let t = ts[n - 1];
                match trigger_block(t.name, t.params) {
                    None => Ok((th, ms)),
                    Some(b) => match kept_blocks(t.body, t.body.len()) {
                        Err(k) => Err(k),
                        Ok(body) => {
                            let ms2 = if b matches BlockV::Basic(BasicKind::WhenMessageRecv, _) && t.params.len() > 0 {
                                ms.push(t.params[0])
                            } else {
                                ms
                            };
                            Ok((th.push(seq![enc_block(b)] + body), ms2))
                        },
                    },
                }
            },
        }
    }
}

/// The project functions of the first `n` top-level statements: each
/// function definition whose body keeps at least one block.
pub open spec fn helper_functions(ss: Seq<StmtV>, n: nat) -> Result<Seq<FunctionV>, ErrorKind>
    decreases n,
{
    if n == 0 || n > ss.len() {
        Ok(seq![])
    } else {
        match helper_functions(ss, (n - 1) as nat) {
            Err(k) => Err(k),
            Ok(p) => match ss[n - 1] {
                StmtV::FuncDef(name, ps, _, body) => match kept_blocks(body, body.len()) {
                    Err(k) => Err(k),
                    Ok(bs) => if bs.len() > 0 {
                        Ok(p.push(FunctionV { name, params: ps.map_values(|q: (Seq<char>, ParamKind)| q.0), body: bs }))
                    } else {
                        Ok(p)
                    },
                },
                _ => Ok(p),
            },
        }
    }
}

/// The top-level statements that are no function definitions.
pub open spec fn init_stmts(ss: Seq<StmtV>) -> Seq<StmtV> {
    ss.filter(|s: StmtV| !(s is FuncDef))
}

/// Threads, functions and message names of one source file: one thread per
/// trigger, then one thread for the other top-level statements when they
/// keep any block.
pub open spec fn source_parts(ts: Seq<TriggerV>, ss: Seq<StmtV>) -> Result<(Seq<Seq<JsonV>>, Seq<FunctionV>, Seq<Seq<char>>), ErrorKind> {
    match trigger_threads(ts, ts.len()) {
        Err(k) => Err(k),
        Ok((th, ms)) => match helper_functions(ss, ss.len()) {
            Err(k) => Err(k),
            Ok(fs) => {
                let init = init_stmts(ss);
                match kept_blocks(init, init.len()) {
                    Err(k) => Err(k),
                    Ok(bs) => Ok((if bs.len() > 0 { th.push(bs) } else { th }, fs, ms)),
                }
            },
        },
    }
}

/// A statement that has no Entry block, and is left out with a warning.
pub open spec fn dropped(s: StmtV) -> bool {
    low_stmt(s) == Err::<BlockV, ErrorKind>(ErrorKind::Unmapped)
}

/// Whether one of the first `n` statements is left out.
pub open spec fn drops_in(ss: Seq<StmtV>, n: nat) -> bool
    decreases n,
{
    if n == 0 || n > ss.len() {
        false
    } else {
        drops_in(ss, (n - 1) as nat) || dropped(ss[n - 1])
    }
}

/// Whether one of the first `n` functions is no trigger, or a trigger's
/// body leaves a statement out.
pub open spec fn trigger_drops(ts: Seq<TriggerV>, n: nat) -> bool
    decreases n,
{
    if n == 0 || n > ts.len() {
        false
    } else {
        trigger_drops(ts, (n - 1) as nat) || match trigger_block(ts[n - 1].name, ts[n - 1].params) {
            None => true,
            Some(_) => drops_in(ts[n - 1].body, ts[n - 1].body.len()),
        }
    }
}

/// Whether the body of one of the first `n` top-level functions leaves a
/// statement out.
pub open spec fn helper_drops(ss: Seq<StmtV>, n: nat) -> bool
    decreases n,
{
    if n == 0 || n > ss.len() {
        false
    } else {
        helper_drops(ss, (n - 1) as nat) || match ss[n - 1] {
            StmtV::FuncDef(_, _, _, body) => drops_in(body, body.len()),
            _ => false,
        }
    }
}

/// Whether building the threads of one source file leaves anything out.
pub open spec fn source_drops(ts: Seq<TriggerV>, ss: Seq<StmtV>) -> bool {
    trigger_drops(ts, ts.len()) || helper_drops(ss, ss.len()) || drops_in(init_stmts(ss), init_stmts(ss).len())
}

/// Whether building the threads of the first `n` source files leaves
/// anything out.
pub open spec fn sources_drop(srcs: Seq<(String, SourceFile)>, n: nat) -> bool
    decreases n,
{
    if n == 0 || n > srcs.len() {
        false
    } else {
        sources_drop(srcs, (n - 1) as nat) || match conv_items(srcs[n - 1].1.items@, srcs[n - 1].1.items@.len(), true) {
            Ok((ss, ts)) => source_drops(ts, ss),
            Err(_) => false,
        }
    }
}

// ---------------------------------------------------------------------------
// Building the threads
// ---------------------------------------------------------------------------

/// Adds `msg` to `unmapped` unless it is already there.
fn push_unmapped(unmapped: &mut Vec<String>, msg: String)
    ensures
        string_views(final(unmapped)@) == if string_views(old(unmapped)@).contains(msg@) {
            string_views(old(unmapped)@)
        } else {
            string_views(old(unmapped)@).push(msg@)
        },
        final(unmapped)@.len() > 0,
{
    let ghost u = string_views(unmapped@);
    let mut i: usize = 0;
    while i < unmapped.len()
        invariant
            i <= unmapped.len(),
            u == string_views(unmapped@),
            forall|j: int| 0 <= j < i ==> u[j] != msg@,
        decreases unmapped.len() - i,
    {
        if str_is(unmapped[i].as_str(), msg.as_str()) {
            proof {
                assert(u[i as int] == msg@);
            }
            return;
        }
        i = i + 1;
    }
    let ghost m = msg@;
    unmapped.push(msg);
    proof {
        assert(string_views(unmapped@) =~= u.push(m));
    }
}

/// The blocks of the statements of `body` that have one; a statement with
/// none adds its message to `unmapped` and is left out.
fn kept_body(body: &Vec<Stmt>, unmapped: &mut Vec<String>) -> (r: crate::error::Result<Vec<Json>>)
    ensures
        agrees_kept(r, kept_blocks(stmt_views(body@), body@.len())),
        r is Ok ==> (final(unmapped)@.len() == 0) == (old(unmapped)@.len() == 0 && !drops_in(stmt_views(body@), body@.len())),
{
    let ghost sv = stmt_views(body@);
    let ghost e0: bool = unmapped@.len() == 0;
    let mut out: Vec<Json> = Vec::new();
    let mut i: usize = 0;
    proof {
        assert(json_views(out@) =~= Seq::<JsonV>::empty());
    }
    while i < body.len()
        invariant
            i <= body.len(),
            sv == stmt_views(body@),
            kept_blocks(sv, i as nat) == Ok::<Seq<JsonV>, ErrorKind>(json_views(out@)),
            (unmapped@.len() == 0) == (e0 && !drops_in(sv, i as nat)),
        decreases body.len() - i,
    {
        proof {
            assert(sv[i as int] == body@[i as int]@);
        }
        match from_stmt(&body[i]) {
            Ok(b) => {
                let v = match to_value(&b) {
                    Ok(v) => v,
                    Err(e) => return Err(e),
                };
                let ghost before = json_views(out@);
                out.push(v);
                proof {
                    assert(json_views(out@) =~= before.push(enc_block(b@)));
                }
            },
            Err(Error::UnmappedBlock(m)) => {
                push_unmapped(unmapped, m);
            },
            Err(e) => {
                proof {
                    lemma_kept_err(sv, (i + 1) as nat, sv.len());
                }
                return Err(e);
            },
        }
        i = i + 1;
    }
    Ok(out)
}

pub open spec fn agrees_kept(r: crate::error::Result<Vec<Json>>, spec: Result<Seq<JsonV>, ErrorKind>) -> bool {
    match r {
        Ok(v) => spec == Ok::<Seq<JsonV>, ErrorKind>(json_views(v@)),
        Err(e) => spec == Err::<Seq<JsonV>, ErrorKind>(e.kind()),
    }
}

proof fn lemma_kept_err(ss: Seq<StmtV>, a: nat, b: nat)
    requires
        a <= b <= ss.len(),
        kept_blocks(ss, a) is Err,
    ensures
        kept_blocks(ss, b) == kept_blocks(ss, a),
    decreases b,
{
    if a < b {
        lemma_kept_err(ss, a, (b - 1) as nat);
    }
}

fn is_one_of(name: &str, a: &str, b: &str) -> (r: bool)
    ensures
        r == (name@ == a@ || name@ == b@),
{
    str_is(name, a) || str_is(name, b)
}

/// The block that opens a trigger's thread; `UnmappedBlock` for a function
/// that is no trigger.
fn trigger_block_for(name: &str, params: &Vec<String>) -> (r: crate::error::Result<Block>)
    ensures
        match trigger_block(name@, string_views(params@)) {
            Some(b) => r matches Ok(x) && x@ == b,
            None => r matches Err(e) && e.kind() == ErrorKind::Unmapped,
        },
{
    if is_one_of(name, "when_start", "when_run") {
        Ok(basic(BasicKind::WhenStart, no_slots()))
    } else if is_one_of(name, "when_click", "when_object_click") {
        Ok(basic(BasicKind::WhenClick, no_slots()))
    } else if str_is(name, "when_clone_start") {
        Ok(basic(BasicKind::WhenCloneStart, no_slots()))
    } else if is_one_of(name, "when_message", "when_message_cast") {
        let msg = if params.len() > 0 {
            owned(params[0].as_str())
        } else {
            owned("")
        };
        proof {
            reveal_strlit("");
            assert(""@ =~= Seq::<char>::empty());
            if params.len() > 0 {
                assert(string_views(params@)[0] == params@[0]@);
            }
        }
        let ghost mv = msg@;
        let slots = vec![SlotValue::Name(msg)];
        proof {
            assert(crate::block::slot_views(slots@) =~= seq![SlotV::Name(mv)]);
        }
        Ok(basic(BasicKind::WhenMessageRecv, slots))
    } else if crate::parse::starts_when(name) {
        Ok(basic(BasicKind::WhenStart, no_slots()))
    } else {
        let mut m = String::new();
        crate::text::push_str(&mut m, "non-trigger: ");
        crate::text::push_str(&mut m, name);
        Err(Error::UnmappedBlock(m))
    }
}

fn no_slots() -> (r: Vec<SlotValue>)
    ensures
        crate::block::slot_views(r@) == Seq::<SlotV>::empty(),
{
    let v: Vec<SlotValue> = Vec::new();
    proof {
        assert(crate::block::slot_views(v@) =~= Seq::<SlotV>::empty());
    }
    v
}

fn basic(kind: BasicKind, slots: Vec<SlotValue>) -> (r: Block)
    ensures
        r@ == BlockV::Basic(kind, crate::block::slot_views(slots@)),
{
    proof {
        crate::block::lemma_slot_seq_view(&slots);
    }
    Block::Basic { kind, slots }
}

proof fn lemma_triggers_err(ts: Seq<TriggerV>, a: nat, b: nat)
    requires
        a <= b <= ts.len(),
        trigger_threads(ts, a) is Err,
    ensures
        trigger_threads(ts, b) == trigger_threads(ts, a),
    decreases b,
{
    if a < b {
        lemma_triggers_err(ts, a, (b - 1) as nat);
    }
}

proof fn lemma_helpers_err(ss: Seq<StmtV>, a: nat, b: nat)
    requires
        a <= b <= ss.len(),
        helper_functions(ss, a) is Err,
    ensures
        helper_functions(ss, b) == helper_functions(ss, a),
    decreases b,
{
    if a < b {
        lemma_helpers_err(ss, a, (b - 1) as nat);
    }
}

fn string_copies(v: &Vec<String>) -> (r: Vec<String>)
    ensures
        string_views(r@) == string_views(v@),
{
    let mut out: Vec<String> = Vec::new();
    let mut i: usize = 0;
    while i < v.len()
        invariant
            i <= v.len(),
            string_views(out@) == string_views(v@).take(i as int),
        decreases v.len() - i,
    {
        let ghost before = string_views(out@);
        let c = owned(v[i].as_str());
        out.push(c);
        proof {
            assert(string_views(out@) =~= before.push(c@));
            assert(string_views(v@).take(i + 1) =~= string_views(v@).take(i as int).push(v@[i as int]@));
        }
        i = i + 1;
    }
    proof {
        assert(string_views(v@).take(i as int) =~= string_views(v@));
    }
    out
}

fn param_names(ps: &Vec<(String, ParamKind)>) -> (r: Vec<String>)
    ensures
        string_views(r@) == ps@.map_values(|p: (String, ParamKind)| (p.0@, p.1)).map_values(|q: (Seq<char>, ParamKind)| q.0),
{
    let ghost all = ps@.map_values(|p: (String, ParamKind)| (p.0@, p.1)).map_values(|q: (Seq<char>, ParamKind)| q.0);
    let mut out: Vec<String> = Vec::new();
    let mut i: usize = 0;
    while i < ps.len()
        invariant
            i <= ps.len(),
            all == ps@.map_values(|p: (String, ParamKind)| (p.0@, p.1)).map_values(|q: (Seq<char>, ParamKind)| q.0),
            string_views(out@) == all.take(i as int),
        decreases ps.len() - i,
    {
        let ghost before = string_views(out@);
        let c = owned(ps[i].0.as_str());
        out.push(c);
        proof {
            assert(string_views(out@) =~= before.push(c@));
            assert(all.take(i + 1) =~= all.take(i as int).push(all[i as int]));
        }
        i = i + 1;
    }
    proof {
        assert(all.take(i as int) =~= all);
    }
    out
}

fn trigger_part(triggers: &Vec<TriggerDef>, unmapped: &mut Vec<String>) -> (r: crate::error::Result<(Vec<Vec<Json>>, Vec<String>)>)
    ensures
        match trigger_threads(trigger_views(triggers@), triggers@.len()) {
            Ok((th, ms)) => r matches Ok((t, m)) && thread_views(t@) == th && string_views(m@) == ms,
            Err(k) => r matches Err(e) && e.kind() == k,
        },
        r is Ok ==> (final(unmapped)@.len() == 0) == (old(unmapped)@.len() == 0 && !trigger_drops(trigger_views(triggers@), triggers@.len())),
{
    let ghost tv = trigger_views(triggers@);
    let ghost e0: bool = unmapped@.len() == 0;
    let mut threads: Vec<Vec<Json>> = Vec::new();
    let mut messages: Vec<String> = Vec::new();
    let mut i: usize = 0;
    proof {
        assert(thread_views(threads@) =~= Seq::<Seq<JsonV>>::empty());
        assert(string_views(messages@) =~= Seq::<Seq<char>>::empty());
    }
    while i < triggers.len()
        invariant
            i <= triggers.len(),
            tv == trigger_views(triggers@),
            trigger_threads(tv, i as nat) == Ok::<(Seq<Seq<JsonV>>, Seq<Seq<char>>), ErrorKind>(
                (thread_views(threads@), string_views(messages@)),
            ),
            (unmapped@.len() == 0) == (e0 && !trigger_drops(tv, i as nat)),
        decreases triggers.len() - i,
    {
        let t = &triggers[i];
        proof {
            assert(tv[i as int] == t@);
        }
        match trigger_thread(t, unmapped) {
            Ok(Some((thread, msg))) => {
                let ghost before = thread_views(threads@);
                let ghost nt = json_views(thread@);
                threads.push(thread);
                proof {
                    assert(thread_views(threads@) =~= before.push(nt));
                }
                let ghost mb = string_views(messages@);
                match msg {
                    Some(c) => {
                        messages.push(c);
                        proof {
                            assert(string_views(messages@) =~= mb.push(c@));
                        }
                    },
                    None => {},
                }
            },
            Ok(None) => {},
            Err(e) => {
                proof {
                    lemma_triggers_err(tv, (i + 1) as nat, tv.len());
                }
                return Err(e);
            },
        }
        i = i + 1;
    }
    Ok((threads, messages))
}

/// The thread of one trigger and the message it waits for; `None` when the
/// function is no trigger (its message is added to `unmapped`).
fn trigger_thread(t: &TriggerDef, unmapped: &mut Vec<String>) -> (r: crate::error::Result<Option<(Vec<Json>, Option<String>)>>)
    ensures
        match trigger_block(t.name@, string_views(t.params@)) {
            None => r matches Ok(None),
            Some(b) => match kept_blocks(stmt_views(t.body@), t.body@.len()) {
                Err(k) => r matches Err(e) && e.kind() == k,
                Ok(body) => r matches Ok(Some((th, m))) && json_views(th@) == seq![enc_block(b)] + body && (if b matches BlockV::Basic(
                    BasicKind::WhenMessageRecv,
                    _,
                ) && t.params@.len() > 0 {
                    m matches Some(x) && x@ == t.params@[0]@
                } else {
                    m is None
                }),
            },
        },
        r is Ok ==> (final(unmapped)@.len() == 0) == (old(unmapped)@.len() == 0 && !match trigger_block(t.name@, string_views(t.params@)) {
            None => true,
            Some(_) => drops_in(stmt_views(t.body@), t.body@.len()),
        }),
{
    let tb = match trigger_block_for(t.name.as_str(), &t.params) {
        Ok(b) => b,
        Err(Error::UnmappedBlock(m)) => {
            push_unmapped(unmapped, m);
            return Ok(None);
        },
        Err(e) => {
            return Err(e);
        },
    };
    let is_msg = match &tb {
        Block::Basic { kind: BasicKind::WhenMessageRecv, .. } => true,
        _ => false,
    };
    let head = match to_value(&tb) {
        Ok(v) => v,
        Err(e) => return Err(e),
    };
    let mut body = match kept_body(&t.body, unmapped) {
        Ok(b) => b,
        Err(e) => return Err(e),
    };
    let msg = if is_msg && t.params.len() > 0 {
        Some(owned(t.params[0].as_str()))
    } else {
        None
    };
    let mut thread: Vec<Json> = Vec::new();
    thread.push(head);
    let ghost hb = json_views(thread@);
    let ghost bb = json_views(body@);
    thread.append(&mut body);
    proof {
        assert(json_views(thread@) =~= hb + bb);
        assert(hb =~= seq![enc_block(tb@)]);
    }
    Ok(Some((thread, msg)))
}

fn helper_part<'a>(program: &'a Program, unmapped: &mut Vec<String>) -> (r: crate::error::Result<(Vec<FunctionDef>, Vec<&'a Stmt>)>)
    ensures
        match helper_functions(stmt_views(program.stmts@), program.stmts@.len()) {
            Ok(fs) => r matches Ok((h, init)) && function_views(h@) == fs && init@.map_values(|x: &Stmt| x@)
                == init_stmts(stmt_views(program.stmts@)),
            Err(k) => r matches Err(e) && e.kind() == k,
        },
        r is Ok ==> (final(unmapped)@.len() == 0) == (old(unmapped)@.len() == 0 && !helper_drops(stmt_views(program.stmts@), program.stmts@.len())),
{
    let ghost sv = stmt_views(program.stmts@);
    let ghost e0: bool = unmapped@.len() == 0;
    let mut helpers: Vec<FunctionDef> = Vec::new();
    let mut init: Vec<&'a Stmt> = Vec::new();
    let mut k: usize = 0;
    proof {
        assert(function_views(helpers@) =~= Seq::<FunctionV>::empty());
        assert(sv.take(0).filter(|s: StmtV| !(s is FuncDef)) =~= Seq::<StmtV>::empty());
        assert(init@.map_values(|x: &Stmt| x@) =~= Seq::<StmtV>::empty());
    }
    while k < program.stmts.len()
        invariant
            k <= program.stmts.len(),
            sv == stmt_views(program.stmts@),
            helper_functions(sv, k as nat) == Ok::<Seq<FunctionV>, ErrorKind>(function_views(helpers@)),
            init@.map_values(|s: &Stmt| s@) == sv.take(k as int).filter(|s: StmtV| !(s is FuncDef)),
            (unmapped@.len() == 0) == (e0 && !helper_drops(sv, k as nat)),
        decreases program.stmts.len() - k,
    {
        let s = &program.stmts[k];
        proof {
            assert(sv[k as int] == s@);
            assert(sv.take(k + 1) =~= sv.take(k as int).push(s@));
            sv.take(k as int).lemma_filter_push(s@, |x: StmtV| !(x is FuncDef));
        }
        match s {
            Stmt::FuncDef { name, params, body, .. } => {
                proof {
                    crate::ir::lemma_body_view(*body);
                }
                let bs = match kept_body(body, unmapped) {
                    Ok(b) => b,
                    Err(e) => {
                        proof {
                            lemma_helpers_err(sv, (k + 1) as nat, sv.len());
                        }
                        return Err(e);
                    },
                };
                if bs.len() > 0 {
                    let f = FunctionDef { name: owned(name.as_str()), params: param_names(params), body: bs };
                    let ghost before = function_views(helpers@);
                    helpers.push(f);
                    proof {
                        assert(function_views(helpers@) =~= before.push(f@));
                    }
                }
            },
            _ => {
                let ghost before = init@.map_values(|x: &Stmt| x@);
                init.push(s);
                proof {
                    assert(init@.map_values(|x: &Stmt| x@) =~= before.push(s@));
                }
            },
        }
        k = k + 1;
    }
    proof {
        assert(sv.take(k as int) =~= sv);
    }
    Ok((helpers, init))
}

fn kept_refs(init: &Vec<&Stmt>, unmapped: &mut Vec<String>) -> (r: crate::error::Result<Vec<Json>>)
    ensures
        agrees_kept(r, kept_blocks(init@.map_values(|x: &Stmt| x@), init@.len())),
        r is Ok ==> (final(unmapped)@.len() == 0) == (old(unmapped)@.len() == 0 && !drops_in(init@.map_values(|x: &Stmt| x@), init@.len())),
{
    let ghost iv = init@.map_values(|x: &Stmt| x@);
    let ghost e0: bool = unmapped@.len() == 0;
    let mut blocks: Vec<Json> = Vec::new();
    let mut j: usize = 0;
    proof {
        assert(json_views(blocks@) =~= Seq::<JsonV>::empty());
    }
    while j < init.len()
        invariant
            j <= init.len(),
            iv == init@.map_values(|x: &Stmt| x@),
            kept_blocks(iv, j as nat) == Ok::<Seq<JsonV>, ErrorKind>(json_views(blocks@)),
            (unmapped@.len() == 0) == (e0 && !drops_in(iv, j as nat)),
        decreases init.len() - j,
    {
        proof {
            assert(iv[j as int] == init@[j as int]@);
        }
        match from_stmt(init[j]) {
            Ok(b) => {
                let v = match to_value(&b) {
                    Ok(v) => v,
                    Err(e) => return Err(e),
                };
                let ghost before = json_views(blocks@);
                blocks.push(v);
                proof {
                    assert(json_views(blocks@) =~= before.push(enc_block(b@)));
                }
            },
            Err(Error::UnmappedBlock(m)) => {
                push_unmapped(unmapped, m);
            },
            Err(e) => {
                proof {
                    lemma_kept_err(iv, (j + 1) as nat, iv.len());
                }
                return Err(e);
            },
        }
        j = j + 1;
    }
    Ok(blocks)
}

/// The threads, project functions and message names of one source file.
pub fn build_threads(triggers: &Vec<TriggerDef>, program: &Program, unmapped: &mut Vec<String>) -> (r: crate::error::Result<ThreadsAndHelpers>)
    ensures
        match source_parts(trigger_views(triggers@), stmt_views(program.stmts@)) {
            Ok((th, fs, ms)) => r matches Ok(t) && thread_views(t.threads@) == th && function_views(t.helpers@) == fs
                && string_views(t.messages@) == ms,
            Err(k) => r matches Err(e) && e.kind() == k,
        },
        r is Ok ==> (final(unmapped)@.len() == 0) == (old(unmapped)@.len() == 0 && !source_drops(
            trigger_views(triggers@),
            stmt_views(program.stmts@),
        )),
{
    let (mut threads, messages) = match trigger_part(triggers, unmapped) {
        Ok(x) => x,
        Err(e) => return Err(e),
    };
    let (helpers, init) = match helper_part(program, unmapped) {
        Ok(x) => x,
        Err(e) => return Err(e),
    };
    let blocks = match kept_refs(&init, unmapped) {
        Ok(b) => b,
        Err(e) => return Err(e),
    };
    if blocks.len() > 0 {
        let ghost before = thread_views(threads@);
        let ghost bv = json_views(blocks@);
        threads.push(blocks);
        proof {
            assert(thread_views(threads@) =~= before.push(bv));
        }
    }
    Ok(ThreadsAndHelpers { threads, helpers, messages })
}

// ---------------------------------------------------------------------------
// Model: project documents
// ---------------------------------------------------------------------------

pub open spec fn type_text(k: VarKind) -> Seq<char> {
    match k {
        VarKind::Variable => "variable"@,
        VarKind::Answer => "answer"@,
        VarKind::Timer => "timer"@,
        VarKind::List => "list"@,
        VarKind::Cloud => "cloud"@,
        VarKind::RealTime => "realtime"@,
        VarKind::Unknown => "variable"@,
    }
}

/// A variable's kind survives a build and a read: the `variableType`
/// written for each kind reads back as that kind (a kind the build does not
/// know is written as a plain variable).
pub proof fn law_variable_type_reads_back(k: VarKind)
    ensures
        k != VarKind::Unknown ==> crate::var::kind_of_type(type_text(k)) == k,
        k == VarKind::Unknown ==> crate::var::kind_of_type(type_text(k)) == VarKind::Variable,
{
    reveal_strlit("timer");
    reveal_strlit("answer");
    reveal_strlit("list");
    reveal_strlit("cloud");
    reveal_strlit("realtime");
    reveal_strlit("realTime");
    reveal_strlit("real_time");
    reveal_strlit("isRealTime");
    reveal_strlit("variable");
    let t = type_text(k);
    if k == VarKind::Variable || k == VarKind::Unknown {
        assert(t[0] == 'v');
    } else if k == VarKind::Answer {
        assert(t[0] == 'a' && t.len() == 6);
    } else if k == VarKind::Timer {
        assert(t[0] == 't');
    } else if k == VarKind::List {
        assert(t[0] == 'l');
    } else if k == VarKind::Cloud {
        assert(t[0] == 'c');
    } else {
        assert(t[0] == 'r' && t.len() == 8);
    }
}

pub open spec fn init_json(i: VarInit) -> JsonV {
    match i {
        VarInit::Int0 => JsonV::Number("0"@),
        VarInit::Float0 => JsonV::Number("0.0"@),
        VarInit::EmptyStr => JsonV::Str(seq![]),
        VarInit::False => JsonV::Bool(false),
        VarInit::EmptyList => JsonV::Array(seq![]),
    }
}

/// Kinds of variables that Entry keeps for the whole project.
pub open spec fn always_global(k: VarKind) -> bool {
    k == VarKind::Timer || k == VarKind::Answer || k == VarKind::Cloud || k == VarKind::RealTime || k == VarKind::List
}

/// A project `variables` entry; `owner` is the source file the variable
/// first occurs in.
pub open spec fn var_json(v: VarInfoV, owner: Option<Seq<char>>) -> JsonV {
    JsonV::Object(
        seq![
            ("id"@, JsonV::Str(v.id)),
            ("name"@, JsonV::Str(v.name)),
            ("variableType"@, JsonV::Str(type_text(v.kind))),
            ("value"@, init_json(v.init)),
            ("visible"@, JsonV::Bool(true)),
            ("isCloud"@, JsonV::Bool(v.kind == VarKind::Cloud)),
            ("isRealTime"@, JsonV::Bool(v.kind == VarKind::RealTime)),
            ("cloudDate"@, JsonV::Bool(false)),
            ("object"@, if always_global(v.kind) {
                JsonV::Null
            } else {
                match owner {
                    Some(o) => JsonV::Str(o),
                    None => JsonV::Null,
                }
            }),
            ("x"@, JsonV::Number("0"@)),
            ("y"@, JsonV::Number("0"@)),
        ],
    )
}

/// The id text of an entry.
pub open spec fn entry_id(e: JsonV) -> Option<Seq<char>> {
    jstr(jget(e, "id"@))
}

/// The first entry with id `id`.
pub open spec fn index_of_id(es: Seq<JsonV>, id: Seq<char>, k: nat) -> Option<int>
    decreases es.len() - k,
{
    if k >= es.len() {
        None
    } else if entry_id(es[k as int]) == Some(id) {
        Some(k as int)
    } else {
        index_of_id(es, id, k + 1)
    }
}

/// `base` with the first `n` new entries merged in by id: an entry with the
/// id of an existing one takes its place, any other is added at the end.
pub open spec fn merge_by_id(base: Seq<JsonV>, news: Seq<JsonV>, n: nat) -> Seq<JsonV>
    decreases n,
{
    if n == 0 || n > news.len() {
        base
    } else {
        let acc = merge_by_id(base, news, (n - 1) as nat);
        let v = news[n - 1];
        match entry_id(v) {
            Some(id) => match index_of_id(acc, id, 0) {
                Some(i) => acc.update(i, v),
                None => acc.push(v),
            },
            None => acc.push(v),
        }
    }
}

/// The array under `key`, or no elements.
pub open spec fn array_at(j: JsonV, key: Seq<char>) -> Seq<JsonV> {
    match jarr(jget(j, key)) {
        Some(a) => a,
        None => seq![],
    }
}

/// An object's `script`: the JSON text of its threads.
pub open spec fn script_value(threads: Seq<Seq<JsonV>>) -> JsonV {
    JsonV::Str(serde_text(JsonV::Array(threads.map_values(|t: Seq<JsonV>| JsonV::Array(t)))))
}

/// ASCII case-insensitive equality.
pub open spec fn same_ignoring_case(a: Seq<char>, b: Seq<char>) -> bool {
    lower_ascii(a) == lower_ascii(b)
}

pub open spec fn name_matches(o: JsonV, stem: Seq<char>) -> bool {
    match jstr(jget(o, "name"@)) {
        Some(n) => same_ignoring_case(n, stem),
        None => false,
    }
}

pub open spec fn first_named(objs: Seq<JsonV>, stem: Seq<char>, k: nat) -> Option<int>
    decreases objs.len() - k,
{
    if k >= objs.len() {
        None
    } else if name_matches(objs[k as int], stem) {
        Some(k as int)
    } else {
        first_named(objs, stem, k + 1)
    }
}

/// Objects after giving each of the first `n` source files' threads to the
/// first object of the same name, and the files that found none.
pub open spec fn patched_objects(objs: Seq<JsonV>, per: Seq<(Seq<char>, Seq<Seq<JsonV>>)>, n: nat) -> (Seq<JsonV>, Seq<(Seq<char>, Seq<Seq<JsonV>>)>)
    decreases n,
{
    if n == 0 || n > per.len() {
        (objs, seq![])
    } else {
        let (os, un) = patched_objects(objs, per, (n - 1) as nat);
        let (stem, th) = per[n - 1];
        match first_named(os, stem, 0) {
            Some(i) => (os.update(i, jset(os[i], "script"@, script_value(th))), un),
            None => (os, un.push((stem, th))),
        }
    }
}

/// The string ids of the first `n` objects.
pub open spec fn object_ids(objs: Seq<JsonV>, n: nat) -> Seq<Seq<char>>
    decreases n,
{
    if n == 0 || n > objs.len() {
        seq![]
    } else {
        match entry_id(objs[n - 1]) {
            Some(id) => object_ids(objs, (n - 1) as nat).push(id),
            None => object_ids(objs, (n - 1) as nat),
        }
    }
}

/// The first of `p_2`, `p_3`, ... (up to `limit`) not in `taken`.
pub open spec fn free_suffixed(p: Seq<char>, taken: Seq<Seq<char>>, i: nat, limit: nat) -> Seq<char>
    decreases limit - i,
{
    let c = p + seq!['_'] + dec_text(i);
    if i >= limit || !taken.contains(c) {
        c
    } else {
        free_suffixed(p, taken, i + 1, limit)
    }
}

/// `p` when it is free, else the first free numbered form of it.
pub open spec fn free_id(p: Seq<char>, taken: Seq<Seq<char>>) -> Seq<char> {
    if !taken.contains(p) {
        p
    } else {
        free_suffixed(p, taken, 2, id_limit(taken.len()))
    }
}

/// How far the numbered search goes: two more than the ids taken (more
/// than enough for one to be free), within the machine's range.
pub open spec fn id_limit(n: nat) -> nat {
    if n + 2 <= usize::MAX {
        n + 2
    } else {
        usize::MAX as nat
    }
}

/// The object that a new object copies its look from: the first sprite of
/// the base, or else its first object.
pub open spec fn model_object(base: JsonV) -> Option<JsonV> {
    let objs = array_at(base, "objects"@);
    match first_sprite(objs, 0) {
        Some(i) => Some(objs[i]),
        None => if objs.len() > 0 { Some(objs[0]) } else { None },
    }
}

pub open spec fn first_sprite(objs: Seq<JsonV>, k: nat) -> Option<int>
    decreases objs.len() - k,
{
    if k >= objs.len() {
        None
    } else if jstr(jget(objs[k as int], "objectType"@)) == Some("sprite"@) {
        Some(k as int)
    } else {
        first_sprite(objs, k + 1)
    }
}

pub open spec fn default_entity() -> JsonV {
    JsonV::Object(
        seq![
            ("rotation"@, JsonV::Number("0.0"@)),
            ("direction"@, JsonV::Number("90.0"@)),
            ("x"@, JsonV::Number("0.0"@)),
            ("y"@, JsonV::Number("0.0"@)),
            ("regX"@, JsonV::Number("0.0"@)),
            ("regY"@, JsonV::Number("0.0"@)),
            ("scaleX"@, JsonV::Number("1.0"@)),
            ("scaleY"@, JsonV::Number("1.0"@)),
            ("width"@, JsonV::Number("0.0"@)),
            ("height"@, JsonV::Number("0.0"@)),
            ("visible"@, JsonV::Bool(true)),
        ],
    )
}

/// A new object for source file `stem`: look copied from the base's model
/// object without its pictures and sounds, a fresh stable id, and the file's
/// threads as script.
pub open spec fn fake_object(stem: Seq<char>, threads: Seq<Seq<JsonV>>, base: JsonV, taken: Seq<Seq<char>>, scene_opt: Option<Seq<char>>) -> JsonV {
    let m = model_object(base);
    let entity = match m {
        Some(o) => match jget(o, "entity"@) {
            Some(e) => e,
            None => default_entity(),
        },
        None => default_entity(),
    };
    let sprite_name = match m {
        Some(o) => match jget(o, "sprite"@) {
            Some(s) => match jget(s, "name"@) {
                Some(n) => n,
                None => JsonV::Str(stem),
            },
            None => JsonV::Str(stem),
        },
        None => JsonV::Str(stem),
    };
    let object_type = match m {
        Some(o) => match jstr(jget(o, "objectType"@)) {
            Some(t) => t,
            None => "sprite"@,
        },
        None => "sprite"@,
    };
    let scene = match scene_opt {
        Some(sc) => sc,
        None => match m {
            Some(o) => match jstr(jget(o, "scene"@)) {
                Some(sc) => sc,
                None => "scene1"@,
            },
            None => "scene1"@,
        },
    };
    let id = free_id("obj_"@ + id_text(stem), taken + object_ids(array_at(base, "objects"@), array_at(base, "objects"@).len()));
    JsonV::Object(
        seq![
            ("id"@, JsonV::Str(id)),
            ("name"@, JsonV::Str(stem)),
            ("script"@, script_value(threads)),
            ("objectType"@, JsonV::Str(object_type)),
            ("scene"@, JsonV::Str(scene)),
            ("selectedPictureId"@, JsonV::Null),
            ("sprite"@, JsonV::Object(seq![("name"@, sprite_name), ("pictures"@, JsonV::Array(seq![])), ("sounds"@, JsonV::Array(seq![]))])),
            ("entity"@, entity),
            ("rotateMethod"@, JsonV::Str("free"@)),
            ("lock"@, JsonV::Bool(false)),
        ],
    )
}

// ---------------------------------------------------------------------------
// Building project documents
// ---------------------------------------------------------------------------

fn field(k: &str, v: Json) -> (r: (String, Json))
    ensures
        r.0@ == k@,
        r.1@ == v@,
{
    (owned(k), v)
}

fn text_json(s: &str) -> (r: Json)
    ensures
        r@ == JsonV::Str(s@),
{
    Json::Str(owned(s))
}

fn number_json(s: &str) -> (r: Json)
    ensures
        r@ == JsonV::Number(s@),
{
    Json::Number(owned(s))
}

fn empty_array() -> (r: Json)
    ensures
        r@ == JsonV::Array(seq![]),
{
    let v: Vec<Json> = Vec::new();
    proof {
        assert(json_views(v@) =~= Seq::<JsonV>::empty());
    }
    crate::json::array_of(v)
}

fn type_str(k: VarKind) -> (r: &'static str)
    ensures
        r@ == type_text(k),
{
    match k {
        VarKind::Variable => "variable",
        VarKind::Answer => "answer",
        VarKind::Timer => "timer",
        VarKind::List => "list",
        VarKind::Cloud => "cloud",
        VarKind::RealTime => "realtime",
        VarKind::Unknown => "variable",
    }
}

fn init_value(i: VarInit) -> (r: Json)
    ensures
        r@ == init_json(i),
{
    match i {
        VarInit::Int0 => number_json("0"),
        VarInit::Float0 => number_json("0.0"),
        VarInit::EmptyStr => {
            let r = text_json("");
            proof {
                reveal_strlit("");
                assert(""@ =~= Seq::<char>::empty());
            }
            r
        },
        VarInit::False => Json::Bool(false),
        VarInit::EmptyList => empty_array(),
    }
}

pub open spec fn opt_text(o: Option<&String>) -> Option<Seq<char>> {
    match o {
        Some(s) => Some(s@),
        None => None,
    }
}

/// A project `variables` entry.
fn var_json_of(v: &VarInfo, owner: Option<&String>) -> (r: Json)
    ensures
        r@ == var_json(v@, opt_text(owner)),
{
    let k = v.kind;
    let object = if k == VarKind::Timer || k == VarKind::Answer || k == VarKind::Cloud || k == VarKind::RealTime
        || k == VarKind::List {
        Json::Null
    } else {
        match owner {
            Some(o) => text_json(o.as_str()),
            None => Json::Null,
        }
    };
    let mut m: Vec<(String, Json)> = Vec::new();
    m.push(field("id", text_json(v.id.as_str())));
    m.push(field("name", text_json(v.name.as_str())));
    m.push(field("variableType", text_json(type_str(k))));
    m.push(field("value", init_value(v.init)));
    m.push(field("visible", Json::Bool(true)));
    m.push(field("isCloud", Json::Bool(k == VarKind::Cloud)));
    m.push(field("isRealTime", Json::Bool(k == VarKind::RealTime)));
    m.push(field("cloudDate", Json::Bool(false)));
    m.push(field("object", object));
    m.push(field("x", number_json("0")));
    m.push(field("y", number_json("0")));
    proof {
        assert(crate::json::member_views(m@) =~= var_json(v@, opt_text(owner))->Object_0);
    }
    crate::json::object_of(m)
}

fn id_of(e: &Json) -> (r: Option<&str>)
    ensures
        match r {
            Some(s) => entry_id(e@) == Some(s@),
            None => entry_id(e@) is None,
        },
{
    match e.get("id") {
        Some(x) => x.as_str(),
        None => None,
    }
}

proof fn lemma_index_of_id(es: Seq<JsonV>, id: Seq<char>, k: nat)
    ensures
        index_of_id(es, id, k) matches Some(i) ==> k <= i < es.len() && entry_id(es[i]) == Some(id),
    decreases es.len() - k,
{
    if k < es.len() {
        lemma_index_of_id(es, id, k + 1);
    }
}

proof fn lemma_first_named(objs: Seq<JsonV>, stem: Seq<char>, k: nat)
    ensures
        first_named(objs, stem, k) matches Some(i) ==> k <= i < objs.len() && name_matches(objs[i], stem),
    decreases objs.len() - k,
{
    if k < objs.len() {
        lemma_first_named(objs, stem, k + 1);
    }
}

fn find_id(es: &Vec<Json>, id: &str) -> (r: Option<usize>)
    ensures
        r matches Some(i) ==> i < es@.len(),
        match index_of_id(json_views(es@), id@, 0) {
            Some(i) => r matches Some(x) && x as int == i,
            None => r is None,
        },
{
    let ghost ev = json_views(es@);
    let mut k: usize = es.len();
    let mut found: Option<usize> = None;
    proof {
        lemma_index_of_id(ev, id@, 0);
    }
    while k > 0
        invariant
            k <= es.len(),
            ev == json_views(es@),
            match index_of_id(ev, id@, k as nat) {
                Some(i) => found matches Some(x) && x as int == i,
                None => found is None,
            },
        decreases k,
    {
        k = k - 1;
        proof {
            assert(ev[k as int] == es@[k as int]@);
        }
        match id_of(&es[k]) {
            Some(x) => {
                if str_is(x, id) {
                    found = Some(k);
                }
            },
            None => {},
        }
    }
    found
}

/// `base` with `news` merged in by id (see `merge_by_id`).
fn merge_entries(base: Vec<Json>, news: &Vec<Json>) -> (r: Vec<Json>)
    ensures
        json_views(r@) == merge_by_id(json_views(base@), json_views(news@), news@.len()),
{
    let ghost bv = json_views(base@);
    let ghost nv = json_views(news@);
    let mut acc = base;
    let mut i: usize = 0;
    while i < news.len()
        invariant
            i <= news.len(),
            bv == json_views(base@),
            nv == json_views(news@),
            json_views(acc@) == merge_by_id(bv, nv, i as nat),
        decreases news.len() - i,
    {
        let v = news[i].duplicate();
        proof {
            assert(nv[i as int] == news@[i as int]@);
        }
        let ghost av = json_views(acc@);
        proof {
            assert(merge_by_id(bv, nv, (i + 1) as nat) == match entry_id(nv[i as int]) {
                Some(id) => match index_of_id(av, id, 0) {
                    Some(q) => av.update(q, nv[i as int]),
                    None => av.push(nv[i as int]),
                },
                None => av.push(nv[i as int]),
            });
        }
        match id_of(&news[i]) {
            Some(id) => match find_id(&acc, id) {
                Some(k) => {
                    acc.set(k, v);
                    proof {
                        assert(json_views(acc@) =~= av.update(k as int, nv[i as int]));
                    }
                },
                None => {
                    acc.push(v);
                    proof {
                        assert(json_views(acc@) =~= av.push(nv[i as int]));
                    }
                },
            },
            None => {
                acc.push(v);
                proof {
                    assert(json_views(acc@) =~= av.push(nv[i as int]));
                }
            },
        }
        i = i + 1;
    }
    acc
}

/// A copy of the array under `key`, or no elements.
fn array_copy(j: &Json, key: &str) -> (r: Vec<Json>)
    ensures
        json_views(r@) == array_at(j@, key@),
{
    match j.get(key) {
        Some(x) => match x.as_array() {
            Some(a) => {
                let mut out: Vec<Json> = Vec::new();
                let mut i: usize = 0;
                while i < a.len()
                    invariant
                        i <= a.len(),
                        json_views(out@) == json_views(a@).take(i as int),
                    decreases a.len() - i,
                {
                    let ghost before = json_views(out@);
                    let c = a[i].duplicate();
                    out.push(c);
                    proof {
                        assert(json_views(out@) =~= before.push(c@));
                        assert(json_views(a@).take(i + 1) =~= json_views(a@).take(i as int).push(a@[i as int]@));
                    }
                    i = i + 1;
                }
                proof {
                    assert(json_views(a@).take(i as int) =~= json_views(a@));
                }
                out
            },
            None => {
                let v: Vec<Json> = Vec::new();
                proof {
                    assert(json_views(v@) =~= Seq::<JsonV>::empty());
                }
                v
            },
        },
        None => {
            let v: Vec<Json> = Vec::new();
            proof {
                assert(json_views(v@) =~= Seq::<JsonV>::empty());
            }
            v
        },
    }
}

/// The `script` value of threads: their JSON text.
fn script_of(threads: &Vec<Vec<Json>>) -> (r: Json)
    ensures
        r@ == script_value(thread_views(threads@)),
{
    let ghost tv = thread_views(threads@);
    let mut arr: Vec<Json> = Vec::new();
    let mut i: usize = 0;
    while i < threads.len()
        invariant
            i <= threads.len(),
            tv == thread_views(threads@),
            arr@.len() == i,
            forall|k: int| 0 <= k < i ==> #[trigger] arr@[k]@ == JsonV::Array(tv[k]),
        decreases threads.len() - i,
    {
        let mut t: Vec<Json> = Vec::new();
        let mut j: usize = 0;
        while j < threads[i].len()
            invariant
                j <= threads@[i as int].len(),
                i < threads.len(),
                t@.len() == j,
                forall|k: int| 0 <= k < j ==> #[trigger] t@[k]@ == threads@[i as int]@[k]@,
            decreases threads@[i as int].len() - j,
        {
            t.push(threads[i][j].duplicate());
            j = j + 1;
        }
        proof {
            crate::json::lemma_array_view(t);
            assert(json_views(t@) =~= json_views(threads@[i as int]@));
            assert(tv[i as int] == json_views(threads@[i as int]@));
        }
        arr.push(Json::Array(t));
        i = i + 1;
    }
    let doc = Json::Array(arr);
    proof {
        crate::json::lemma_array_view(arr);
        assert(json_views(arr@) =~= tv.map_values(|t: Seq<JsonV>| JsonV::Array(t)));
    }
    Json::Str(crate::json::to_json_text(&doc))
}

fn same_name(a: &str, b: &str) -> (r: bool)
    ensures
        r == same_ignoring_case(a@, b@),
{
    let x = crate::text::lower_string(a);
    let y = crate::text::lower_string(b);
    str_is(x.as_str(), y.as_str())
}

fn matches_stem(o: &Json, stem: &str) -> (r: bool)
    ensures
        r == name_matches(o@, stem@),
{
    match o.get("name") {
        Some(n) => match n.as_str() {
            Some(x) => same_name(x, stem),
            None => false,
        },
        None => false,
    }
}

fn find_named(objs: &Vec<Json>, stem: &str) -> (r: Option<usize>)
    ensures
        r matches Some(i) ==> i < objs@.len() && name_matches(objs@[i as int]@, stem@),
        match first_named(json_views(objs@), stem@, 0) {
            Some(i) => r matches Some(x) && x as int == i,
            None => r is None,
        },
{
    let ghost ov = json_views(objs@);
    let mut k: usize = objs.len();
    let mut found: Option<usize> = None;
    proof {
        lemma_first_named(ov, stem@, 0);
    }
    while k > 0
        invariant
            k <= objs.len(),
            ov == json_views(objs@),
            match first_named(ov, stem@, k as nat) {
                Some(i) => found matches Some(x) && x as int == i,
                None => found is None,
            },
        decreases k,
    {
        k = k - 1;
        proof {
            assert(ov[k as int] == objs@[k as int]@);
        }
        if matches_stem(&objs[k], stem) {
            found = Some(k);
        }
    }
    found
}

pub open spec fn per_views(per: Seq<(String, Vec<Vec<Json>>)>) -> Seq<(Seq<char>, Seq<Seq<JsonV>>)> {
    per.map_values(|p: (String, Vec<Vec<Json>>)| (p.0@, thread_views(p.1@)))
}

/// Gives each source file's threads to the first object of its name; the
/// indices of the files that found none.
fn patch_objects(objs: Vec<Json>, per: &Vec<(String, Vec<Vec<Json>>)>) -> (r: (Vec<Json>, Vec<usize>))
    ensures
        json_views(r.0@) == patched_objects(json_views(objs@), per_views(per@), per@.len()).0,
        r.1@.map_values(|i: usize| per_views(per@)[i as int]) == patched_objects(json_views(objs@), per_views(per@), per@.len()).1,
        forall|k: int| 0 <= k < r.1@.len() ==> r.1@[k] < per@.len(),
{
    let ghost ov = json_views(objs@);
    let ghost pv = per_views(per@);
    let mut os = objs;
    let mut un: Vec<usize> = Vec::new();
    let mut i: usize = 0;
    while i < per.len()
        invariant
            i <= per.len(),
            pv == per_views(per@),
            json_views(os@) == patched_objects(ov, pv, i as nat).0,
            un@.map_values(|q: usize| pv[q as int]) == patched_objects(ov, pv, i as nat).1,
            forall|k: int| 0 <= k < un@.len() ==> un@[k] < per@.len(),
        decreases per.len() - i,
    {
        let (stem, th) = (&per[i].0, &per[i].1);
        proof {
            assert(pv[i as int] == (stem@, thread_views(th@)));
        }
        let ghost before = json_views(os@);
        proof {
            let prev = patched_objects(ov, pv, i as nat);
            assert(prev.0 == before);
            assert(patched_objects(ov, pv, (i + 1) as nat) == match first_named(before, stem@, 0) {
                Some(q) => (before.update(q, jset(before[q], "script"@, script_value(thread_views(th@)))), prev.1),
                None => (before, prev.1.push((stem@, thread_views(th@)))),
            });
        }
        match find_named(&os, stem.as_str()) {
            Some(k) => {
                let o = os.remove(k);
                proof {
                    assert(before[k as int] == o@);
                }
                let patched = crate::json::with_member(o, "script", script_of(th));
                os.insert(k, patched);
                proof {
                    assert(json_views(os@) =~= before.update(k as int, jset(before[k as int], "script"@, script_value(thread_views(th@)))));
                }
            },
            None => {
                let ghost ub = un@.map_values(|q: usize| pv[q as int]);
                un.push(i);
                proof {
                    assert(un@.map_values(|q: usize| pv[q as int]) =~= ub.push(pv[i as int]));
                }
            },
        }
        i = i + 1;
    }
    (os, un)
}

/// The string ids of the objects.
fn ids_of(objs: &Vec<Json>) -> (r: Vec<String>)
    ensures
        string_views(r@) == object_ids(json_views(objs@), objs@.len()),
{
    let ghost ov = json_views(objs@);
    let mut out: Vec<String> = Vec::new();
    let mut i: usize = 0;
    proof {
        assert(string_views(out@) =~= Seq::<Seq<char>>::empty());
    }
    while i < objs.len()
        invariant
            i <= objs.len(),
            ov == json_views(objs@),
            string_views(out@) == object_ids(ov, i as nat),
        decreases objs.len() - i,
    {
        proof {
            assert(ov[i as int] == objs@[i as int]@);
        }
        match id_of(&objs[i]) {
            Some(x) => {
                let ghost before = string_views(out@);
                let c = owned(x);
                out.push(c);
                proof {
                    assert(string_views(out@) =~= before.push(c@));
                }
            },
            None => {},
        }
        i = i + 1;
    }
    out
}

fn contains_text(v: &Vec<String>, n: &str) -> (r: bool)
    ensures
        r == string_views(v@).contains(n@),
{
    let ghost u = string_views(v@);
    let mut i: usize = 0;
    while i < v.len()
        invariant
            i <= v.len(),
            u == string_views(v@),
            forall|j: int| 0 <= j < i ==> u[j] != n@,
        decreases v.len() - i,
    {
        if str_is(v[i].as_str(), n) {
            proof {
                assert(u[i as int] == n@);
            }
            return true;
        }
        i = i + 1;
    }
    false
}

/// `p` when not taken, else the first of `p_2`, `p_3`, ... not taken.
fn free_id_of(p: String, taken: &Vec<String>) -> (r: String)
    ensures
        r@ == free_id(p@, string_views(taken@)),
{
    if !contains_text(taken, p.as_str()) {
        return p;
    }
    let ghost tv = string_views(taken@);
    let limit = if taken.len() <= usize::MAX - 2 {
        taken.len() + 2
    } else {
        usize::MAX
    };
    let mut i: usize = 2;
    loop
        invariant
            2 <= i <= limit,
            limit == id_limit(taken@.len() as nat),
            tv == string_views(taken@),
            tv.contains(p@),
            free_suffixed(p@, tv, i as nat, limit as nat) == free_id(p@, tv),
        decreases limit - i,
    {
        let mut c = owned(p.as_str());
        crate::text::push_char(&mut c, '_');
        crate::text::push_str(&mut c, crate::text::usize_string(i).as_str());
        proof {
            assert(c@ =~= p@ + seq!['_'] + dec_text(i as nat));
        }
        if i >= limit || !contains_text(taken, c.as_str()) {
            return c;
        }
        i = i + 1;
    }
}

fn first_sprite_of(objs: &Vec<Json>) -> (r: Option<usize>)
    ensures
        match first_sprite(json_views(objs@), 0) {
            Some(i) => r matches Some(x) && x as int == i,
            None => r is None,
        },
        r matches Some(i) ==> i < objs@.len(),
{
    let ghost ov = json_views(objs@);
    let mut k: usize = objs.len();
    let mut found: Option<usize> = None;
    proof {
        lemma_first_sprite(ov, 0);
    }
    while k > 0
        invariant
            k <= objs.len(),
            ov == json_views(objs@),
            match first_sprite(ov, k as nat) {
                Some(i) => found matches Some(x) && x as int == i,
                None => found is None,
            },
        decreases k,
    {
        k = k - 1;
        proof {
            assert(ov[k as int] == objs@[k as int]@);
        }
        let is_sprite = match objs[k].get("objectType") {
            Some(t) => match t.as_str() {
                Some(x) => str_is(x, "sprite"),
                None => false,
            },
            None => false,
        };
        if is_sprite {
            found = Some(k);
        }
    }
    found
}

proof fn lemma_first_sprite(objs: Seq<JsonV>, k: nat)
    ensures
        first_sprite(objs, k) matches Some(i) ==> k <= i < objs.len(),
    decreases objs.len() - k,
{
    if k < objs.len() {
        lemma_first_sprite(objs, k + 1);
    }
}

fn model_object_of(objs: &Vec<Json>) -> (r: Option<&Json>)
    ensures
        match model_object_in(json_views(objs@)) {
            Some(o) => r matches Some(x) && x@ == o,
            None => r is None,
        },
{
    match first_sprite_of(objs) {
        Some(i) => Some(&objs[i]),
        None => {
            if objs.len() > 0 {
                Some(&objs[0])
            } else {
                None
            }
        },
    }
}

pub open spec fn model_object_in(objs: Seq<JsonV>) -> Option<JsonV> {
    match first_sprite(objs, 0) {
        Some(i) => Some(objs[i]),
        None => if objs.len() > 0 { Some(objs[0]) } else { None },
    }
}

fn default_entity_json() -> (r: Json)
    ensures
        r@ == default_entity(),
{
    let mut m: Vec<(String, Json)> = Vec::new();
    m.push(field("rotation", number_json("0.0")));
    m.push(field("direction", number_json("90.0")));
    m.push(field("x", number_json("0.0")));
    m.push(field("y", number_json("0.0")));
    m.push(field("regX", number_json("0.0")));
    m.push(field("regY", number_json("0.0")));
    m.push(field("scaleX", number_json("1.0")));
    m.push(field("scaleY", number_json("1.0")));
    m.push(field("width", number_json("0.0")));
    m.push(field("height", number_json("0.0")));
    m.push(field("visible", Json::Bool(true)));
    proof {
        assert(crate::json::member_views(m@) =~= default_entity()->Object_0);
    }
    crate::json::object_of(m)
}

/// Options of a build.
#[derive(Debug, Clone)]
pub struct CompileOptions {
    /// Scene of the new objects; when absent, that of the base's model object.
    pub default_scene: Option<String>,
}

impl Default for CompileOptions {
    fn default() -> (r: CompileOptions)
        ensures
            r.default_scene is None,
    {
        CompileOptions { default_scene: None }
    }
}

pub open spec fn scene_option(o: &CompileOptions) -> Option<Seq<char>> {
    match &o.default_scene {
        Some(s) => Some(s@),
        None => None,
    }
}

/// A new object for the source file `stem` (see `fake_object`).
fn make_fake_object(stem: &str, threads: &Vec<Vec<Json>>, base: &Json, taken: &Vec<String>, options: &CompileOptions) -> (r: Json)
    ensures
        r@ == fake_object(stem@, thread_views(threads@), base@, string_views(taken@), scene_option(options)),
{
    let objs = array_copy(base, "objects");
    let ghost ov = json_views(objs@);
    let m = model_object_of(&objs);
    proof {
        assert(model_object(base@) == model_object_in(ov));
    }
    let entity = match m {
        Some(o) => match o.get("entity") {
            Some(e) => e.duplicate(),
            None => default_entity_json(),
        },
        None => default_entity_json(),
    };
    let sprite_name = match m {
        Some(o) => match o.get("sprite") {
            Some(sp) => match sp.get("name") {
                Some(n) => n.duplicate(),
                None => text_json(stem),
            },
            None => text_json(stem),
        },
        None => text_json(stem),
    };
    let object_type = match m {
        Some(o) => match o.get("objectType") {
            Some(t) => match t.as_str() {
                Some(x) => owned(x),
                None => owned("sprite"),
            },
            None => owned("sprite"),
        },
        None => owned("sprite"),
    };
    let scene = match &options.default_scene {
        Some(sc) => owned(sc.as_str()),
        None => match m {
            Some(o) => match o.get("scene") {
                Some(t) => match t.as_str() {
                    Some(x) => owned(x),
                    None => owned("scene1"),
                },
                None => owned("scene1"),
            },
            None => owned("scene1"),
        },
    };
    let mut all_taken = string_copies(taken);
    let mut base_ids = ids_of(&objs);
    let ghost t1 = string_views(all_taken@);
    let ghost t2 = string_views(base_ids@);
    proof {
        lemma_object_ids_len(ov, ov.len());
    }
    all_taken.append(&mut base_ids);
    proof {
        assert(string_views(all_taken@) =~= t1 + t2);
    }
    let mut p = String::new();
    crate::text::push_str(&mut p, "obj_");
    crate::text::push_str(&mut p, crate::block::names::id_for(stem).as_str());
    proof {
        reveal_strlit("");
    }
    let ghost pv = p@;
    let id = free_id_of(p, &all_taken);
    proof {
        let m0 = model_object(base@);
        assert(pv =~= "obj_"@ + id_text(stem@));
        assert(id@ == free_id("obj_"@ + id_text(stem@), string_views(taken@) + object_ids(array_at(base@, "objects"@), array_at(base@, "objects"@).len())));
        assert(entity@ == match m0 {
            Some(o) => match jget(o, "entity"@) {
                Some(e) => e,
                None => default_entity(),
            },
            None => default_entity(),
        });
        assert(object_type@ == match m0 {
            Some(o) => match jstr(jget(o, "objectType"@)) {
                Some(t) => t,
                None => "sprite"@,
            },
            None => "sprite"@,
        });
        assert(scene@ == match scene_option(options) {
            Some(sc) => sc,
            None => match m0 {
                Some(o) => match jstr(jget(o, "scene"@)) {
                    Some(sc) => sc,
                    None => "scene1"@,
                },
                None => "scene1"@,
            },
        });
    }
    let mut sp: Vec<(String, Json)> = Vec::new();
    sp.push(field("name", sprite_name));
    sp.push(field("pictures", empty_array()));
    sp.push(field("sounds", empty_array()));
    let ghost spv = crate::json::member_views(sp@);
    let sprite = crate::json::object_of(sp);
    proof {
        let m0 = model_object(base@);
        let sn = match m0 {
            Some(o) => match jget(o, "sprite"@) {
                Some(x) => match jget(x, "name"@) {
                    Some(n) => n,
                    None => JsonV::Str(stem@),
                },
                None => JsonV::Str(stem@),
            },
            None => JsonV::Str(stem@),
        };
        assert(spv =~= seq![("name"@, sn), ("pictures"@, JsonV::Array(seq![])), ("sounds"@, JsonV::Array(seq![]))]);
    }
    let mut mm: Vec<(String, Json)> = Vec::new();
    mm.push(field("id", Json::Str(id)));
    mm.push(field("name", text_json(stem)));
    mm.push(field("script", script_of(threads)));
    mm.push(field("objectType", Json::Str(object_type)));
    mm.push(field("scene", Json::Str(scene)));
    mm.push(field("selectedPictureId", Json::Null));
    mm.push(field("sprite", sprite));
    mm.push(field("entity", entity));
    mm.push(field("rotateMethod", text_json("free")));
    mm.push(field("lock", Json::Bool(false)));
    proof {
        assert(crate::json::member_views(mm@) =~= fake_object(stem@, thread_views(threads@), base@, string_views(taken@), scene_option(options))->Object_0);
    }
    crate::json::object_of(mm)
}

proof fn lemma_object_ids_len(objs: Seq<JsonV>, n: nat)
    ensures
        object_ids(objs, n).len() <= n,
    decreases n,
{
    if n > 0 && n <= objs.len() {
        lemma_object_ids_len(objs, (n - 1) as nat);
    }
}

// ---------------------------------------------------------------------------
// Project functions and messages
// ---------------------------------------------------------------------------

pub open spec fn param_entries(ps: Seq<Seq<char>>) -> Seq<JsonV> {
    ps.map_values(|p: Seq<char>| JsonV::Object(seq![("name"@, JsonV::Str(p))]))
}

/// A `functions` entry with id `id`.
pub open spec fn function_value(f: FunctionV, id: Seq<char>) -> JsonV {
    JsonV::Object(
        seq![
            ("id"@, JsonV::Str(id)),
            ("name"@, JsonV::Str(f.name)),
            ("content"@, JsonV::Array(seq![JsonV::Object(seq![("blocks"@, JsonV::Array(f.body))])])),
            ("param"@, JsonV::Array(param_entries(f.params))),
        ],
    )
}

/// `fs` with the first `n` functions added, each with an id not yet taken.
pub open spec fn merge_functions(fs: Seq<JsonV>, hs: Seq<FunctionV>, n: nat) -> Seq<JsonV>
    decreases n,
{
    if n == 0 || n > hs.len() {
        fs
    } else {
        let acc = merge_functions(fs, hs, (n - 1) as nat);
        let h = hs[n - 1];
        acc.push(function_value(h, free_id("fn_"@ + id_text(h.name), object_ids(acc, acc.len()))))
    }
}

pub open spec fn has_message(ms: Seq<JsonV>, name: Seq<char>) -> bool {
    exists|i: int| 0 <= i < ms.len() && jget(ms[i], "name"@) == Some(JsonV::Str(name))
}

pub open spec fn message_value(name: Seq<char>) -> JsonV {
    JsonV::Object(seq![("id"@, JsonV::Str(name)), ("name"@, JsonV::Str(name))])
}

/// `ms` with the first `n` message names added, skipping names already
/// present.
pub open spec fn merge_messages(ms: Seq<JsonV>, names: Seq<Seq<char>>, n: nat) -> Seq<JsonV>
    decreases n,
{
    if n == 0 || n > names.len() {
        ms
    } else {
        let acc = merge_messages(ms, names, (n - 1) as nat);
        if has_message(acc, names[n - 1]) {
            acc
        } else {
            acc.push(message_value(names[n - 1]))
        }
    }
}

fn function_json(f: &FunctionDef, id: String) -> (r: Json)
    ensures
        r@ == function_value(f@, id@),
{
    let mut params: Vec<Json> = Vec::new();
    let mut i: usize = 0;
    let ghost pv = f@.params;
    while i < f.params.len()
        invariant
            i <= f.params.len(),
            pv == f@.params,
            json_views(params@) == param_entries(pv).take(i as int),
        decreases f.params.len() - i,
    {
        let mut m: Vec<(String, Json)> = Vec::new();
        m.push(field("name", text_json(f.params[i].as_str())));
        proof {
            assert(crate::json::member_views(m@) =~= seq![("name"@, JsonV::Str(pv[i as int]))]);
        }
        let e = crate::json::object_of(m);
        let ghost before = json_views(params@);
        params.push(e);
        proof {
            assert(json_views(params@) =~= before.push(e@));
            assert(param_entries(pv).take(i + 1) =~= param_entries(pv).take(i as int).push(param_entries(pv)[i as int]));
        }
        i = i + 1;
    }
    proof {
        assert(param_entries(pv).take(i as int) =~= param_entries(pv));
    }
    let mut body: Vec<Json> = Vec::new();
    let mut k: usize = 0;
    while k < f.body.len()
        invariant
            k <= f.body.len(),
            json_views(body@) == json_views(f.body@).take(k as int),
        decreases f.body.len() - k,
    {
        let ghost before = json_views(body@);
        let c = f.body[k].duplicate();
        body.push(c);
        proof {
            assert(json_views(body@) =~= before.push(c@));
            assert(json_views(f.body@).take(k + 1) =~= json_views(f.body@).take(k as int).push(f.body@[k as int]@));
        }
        k = k + 1;
    }
    proof {
        assert(json_views(f.body@).take(k as int) =~= json_views(f.body@));
    }
    let mut blocks: Vec<(String, Json)> = Vec::new();
    blocks.push(field("blocks", crate::json::array_of(body)));
    let ghost bv = crate::json::member_views(blocks@);
    let content_item = crate::json::object_of(blocks);
    let mut content: Vec<Json> = Vec::new();
    content.push(content_item);
    let ghost cv = json_views(content@);
    let mut mm: Vec<(String, Json)> = Vec::new();
    mm.push(field("id", Json::Str(id)));
    mm.push(field("name", text_json(f.name.as_str())));
    mm.push(field("content", crate::json::array_of(content)));
    mm.push(field("param", crate::json::array_of(params)));
    proof {
        assert(bv =~= seq![("blocks"@, JsonV::Array(f@.body))]);
        assert(cv =~= seq![JsonV::Object(seq![("blocks"@, JsonV::Array(f@.body))])]);
        assert(crate::json::member_views(mm@) =~= function_value(f@, id@)->Object_0);
    }
    crate::json::object_of(mm)
}

fn merge_function_entries(fs: Vec<Json>, hs: &Vec<FunctionDef>) -> (r: Vec<Json>)
    ensures
        json_views(r@) == merge_functions(json_views(fs@), function_views(hs@), hs@.len()),
{
    let ghost fv = json_views(fs@);
    let ghost hv = function_views(hs@);
    let mut acc = fs;
    let mut i: usize = 0;
    while i < hs.len()
        invariant
            i <= hs.len(),
            hv == function_views(hs@),
            json_views(acc@) == merge_functions(fv, hv, i as nat),
        decreases hs.len() - i,
    {
        let taken = ids_of(&acc);
        proof {
            lemma_object_ids_len(json_views(acc@), acc@.len() as nat);
        }
        let mut p = String::new();
        crate::text::push_str(&mut p, "fn_");
        crate::text::push_str(&mut p, crate::block::names::id_for(hs[i].name.as_str()).as_str());
        proof {
            assert(hv[i as int] == hs@[i as int]@);
        }
        let id = free_id_of(p, &taken);
        let e = function_json(&hs[i], id);
        let ghost before = json_views(acc@);
        acc.push(e);
        proof {
            assert(json_views(acc@) =~= before.push(e@));
        }
        i = i + 1;
    }
    acc
}

fn message_json(name: &str) -> (r: Json)
    ensures
        r@ == message_value(name@),
{
    let mut m: Vec<(String, Json)> = Vec::new();
    m.push(field("id", text_json(name)));
    m.push(field("name", text_json(name)));
    proof {
        assert(crate::json::member_views(m@) =~= message_value(name@)->Object_0);
    }
    crate::json::object_of(m)
}

fn has_message_of(ms: &Vec<Json>, name: &str) -> (r: bool)
    ensures
        r == has_message(json_views(ms@), name@),
{
    let ghost mv = json_views(ms@);
    let mut i: usize = 0;
    while i < ms.len()
        invariant
            i <= ms.len(),
            mv == json_views(ms@),
            forall|j: int| 0 <= j < i ==> jget(mv[j], "name"@) != Some(JsonV::Str(name@)),
        decreases ms.len() - i,
    {
        proof {
            assert(mv[i as int] == ms@[i as int]@);
        }
        let hit = match ms[i].get("name") {
            Some(n) => match n.as_str() {
                Some(x) => str_is(x, name),
                None => false,
            },
            None => false,
        };
        if hit {
            return true;
        }
        i = i + 1;
    }
    false
}

fn merge_message_entries(ms: Vec<Json>, names: &Vec<String>) -> (r: Vec<Json>)
    ensures
        json_views(r@) == merge_messages(json_views(ms@), string_views(names@), names@.len()),
{
    let ghost mv = json_views(ms@);
    let ghost nv = string_views(names@);
    let mut acc = ms;
    let mut i: usize = 0;
    while i < names.len()
        invariant
            i <= names.len(),
            nv == string_views(names@),
            json_views(acc@) == merge_messages(mv, nv, i as nat),
        decreases names.len() - i,
    {
        proof {
            assert(nv[i as int] == names@[i as int]@);
        }
        if !has_message_of(&acc, names[i].as_str()) {
            let e = message_json(names[i].as_str());
            let ghost before = json_views(acc@);
            acc.push(e);
            proof {
                assert(json_views(acc@) =~= before.push(e@));
            }
        }
        i = i + 1;
    }
    acc
}

// ---------------------------------------------------------------------------
// Model: the whole build
// ---------------------------------------------------------------------------

/// What the source files give together: all their statements (trigger
/// bodies included), each file's threads by stem, the project functions and
/// the message names.
pub struct Gathered {
    pub merged: Seq<StmtV>,
    pub per: Seq<(Seq<char>, Seq<Seq<JsonV>>)>,
    pub helpers: Seq<FunctionV>,
    pub messages: Seq<Seq<char>>,
}

pub open spec fn gathered(srcs: Seq<(String, SourceFile)>, n: nat) -> Result<Gathered, ErrorKind>
    decreases n,
{
    if n == 0 || n > srcs.len() {
        Ok(Gathered { merged: seq![], per: seq![], helpers: seq![], messages: seq![] })
    } else {
        match gathered(srcs, (n - 1) as nat) {
            Err(k) => Err(k),
            Ok(g) => {
                let (name, file) = srcs[n - 1];
                match conv_items(file.items@, file.items@.len(), false) {
                    Err(k) => Err(k),
                    Ok((flat, _)) => match conv_items(file.items@, file.items@.len(), true) {
                        Err(k) => Err(k),
                        Ok((ss, ts)) => match source_parts(ts, ss) {
                            Err(k) => Err(k),
                            Ok((th, fs, ms)) => Ok(
                                Gathered {
                                    merged: g.merged + flat,
                                    per: g.per.push((name@, th)),
                                    helpers: g.helpers + fs,
                                    messages: g.messages + ms,
                                },
                            ),
                        },
                    },
                }
            },
        }
    }
}

/// The variable names of a source file, in the order they first occur.
pub open spec fn source_names(file: SourceFile) -> Seq<Seq<char>> {
    match conv_items(file.items@, file.items@.len(), false) {
        Ok((ss, _)) => event_names(body_events(ss, ss.len())),
        Err(_) => seq![],
    }
}

/// The stem of the first source file that uses `name`.
pub open spec fn owner_of(srcs: Seq<(String, SourceFile)>, name: Seq<char>, k: nat) -> Option<Seq<char>>
    decreases srcs.len() - k,
{
    if k >= srcs.len() {
        None
    } else if source_names(srcs[k as int].1).contains(name) {
        Some(srcs[k as int].0@)
    } else {
        owner_of(srcs, name, k + 1)
    }
}

pub open spec fn var_entries_of(bl: Seq<VarInfoV>, srcs: Seq<(String, SourceFile)>) -> Seq<JsonV> {
    bl.map_values(|v: VarInfoV| var_json(v, owner_of(srcs, v.name, 0)))
}

pub open spec fn with_vars(base: JsonV, entries: Seq<JsonV>) -> JsonV {
    jset(base, "variables"@, JsonV::Array(merge_by_id(array_at(base, "variables"@), entries, entries.len())))
}

pub open spec fn with_scripts(p: JsonV, base: JsonV) -> JsonV {
    match jget(base, "scripts"@) {
        Some(x) => jset(p, "scripts"@, x),
        None => jremove(p, "scripts"@),
    }
}

pub open spec fn with_objects(p: JsonV, per: Seq<(Seq<char>, Seq<Seq<JsonV>>)>) -> (JsonV, Seq<(Seq<char>, Seq<Seq<JsonV>>)>) {
    match jarr(jget(p, "objects"@)) {
        Some(arr) => {
            let (os, un) = patched_objects(arr, per, per.len());
            (jset(p, "objects"@, JsonV::Array(os)), un)
        },
        None => (p, per),
    }
}

/// `p` with new objects for the unmatched files `lo..n` appended.
pub open spec fn appended(p: JsonV, un: Seq<(Seq<char>, Seq<Seq<JsonV>>)>, lo: nat, n: nat, base: JsonV, scene: Option<Seq<char>>) -> JsonV
    decreases n,
{
    if n <= lo || n > un.len() {
        p
    } else {
        let q = appended(p, un, lo, (n - 1) as nat, base, scene);
        let objs = array_at(q, "objects"@);
        let (stem, th) = un[n - 1];
        jset(q, "objects"@, JsonV::Array(objs.push(fake_object(stem, th, base, object_ids(objs, objs.len()), scene))))
    }
}

pub open spec fn with_fakes(p: JsonV, un: Seq<(Seq<char>, Seq<Seq<JsonV>>)>, base: JsonV, scene: Option<Seq<char>>) -> JsonV {
    if un.len() == 0 {
        p
    } else if array_at(p, "objects"@).len() == 0 {
        let first = jset(p, "objects"@, JsonV::Array(seq![fake_object(un[0].0, un[0].1, base, seq![], scene)]));
        appended(first, un, 1, un.len(), base, scene)
    } else {
        appended(p, un, 0, un.len(), base, scene)
    }
}

pub open spec fn with_functions(p: JsonV, hs: Seq<FunctionV>) -> JsonV {
    if hs.len() == 0 {
        p
    } else {
        jset(p, "functions"@, JsonV::Array(merge_functions(array_at(p, "functions"@), hs, hs.len())))
    }
}

pub open spec fn with_messages(p: JsonV, ms: Seq<Seq<char>>) -> JsonV {
    if ms.len() == 0 {
        p
    } else {
        jset(p, "messages"@, JsonV::Array(merge_messages(array_at(p, "messages"@), ms, ms.len())))
    }
}

/// The finished project, the new variables listed in the order `bl`.
pub open spec fn built_project(srcs: Seq<(String, SourceFile)>, base: JsonV, scene: Option<Seq<char>>, g: Gathered, bl: Seq<VarInfoV>) -> JsonV {
    let p1 = with_vars(base, var_entries_of(bl, srcs));
    let p2 = with_scripts(p1, base);
    let (p3, un) = with_objects(p2, g.per);
    let p4 = with_fakes(p3, un, base, scene);
    with_messages(with_functions(p4, g.helpers), g.messages)
}

// ---------------------------------------------------------------------------
// The build
// ---------------------------------------------------------------------------

proof fn lemma_gathered_err(srcs: Seq<(String, SourceFile)>, a: nat, b: nat)
    requires
        a <= b <= srcs.len(),
        gathered(srcs, a) is Err,
    ensures
        gathered(srcs, b) == gathered(srcs, a),
    decreases b,
{
    if a < b {
        lemma_gathered_err(srcs, a, (b - 1) as nat);
    }
}

/// Reads every source file: all statements, threads by stem, project
/// functions and message names.
#[verifier::rlimit(80)]
fn gather(sources: &Vec<(String, SourceFile)>, unmapped: &mut Vec<String>) -> (r: crate::error::Result<(Vec<Stmt>, Vec<(String, Vec<Vec<Json>>)>, Vec<FunctionDef>, Vec<String>)>)
    ensures
        match gathered(sources@, sources@.len()) {
            Ok(g) => r matches Ok((m, per, hs, ms)) && stmt_views(m@) == g.merged && per_views(per@) == g.per
                && function_views(hs@) == g.helpers && string_views(ms@) == g.messages,
            Err(k) => r matches Err(e) && e.kind() == k,
        },
        r is Ok ==> (final(unmapped)@.len() == 0) == (old(unmapped)@.len() == 0 && !sources_drop(sources@, sources@.len())),
{
    let ghost e0: bool = unmapped@.len() == 0;
    let mut merged: Vec<Stmt> = Vec::new();
    let mut per: Vec<(String, Vec<Vec<Json>>)> = Vec::new();
    let mut helpers: Vec<FunctionDef> = Vec::new();
    let mut messages: Vec<String> = Vec::new();
    let mut i: usize = 0;
    proof {
        assert(stmt_views(merged@) =~= Seq::<StmtV>::empty());
        assert(per_views(per@) =~= Seq::<(Seq<char>, Seq<Seq<JsonV>>)>::empty());
        assert(function_views(helpers@) =~= Seq::<FunctionV>::empty());
        assert(string_views(messages@) =~= Seq::<Seq<char>>::empty());
    }
    while i < sources.len()
        invariant
            i <= sources.len(),
            gathered(sources@, i as nat) matches Ok(g) && stmt_views(merged@) == g.merged && per_views(per@) == g.per
                && function_views(helpers@) == g.helpers && string_views(messages@) == g.messages,
            (unmapped@.len() == 0) == (e0 && !sources_drop(sources@, i as nat)),
        decreases sources.len() - i,
    {
        let (name, file) = (&sources[i].0, &sources[i].1);
        let flat = match parse_file(file) {
            Ok(p) => p,
            Err(e) => {
                proof {
                    lemma_gathered_err(sources@, (i + 1) as nat, sources@.len());
                }
                return Err(e);
            },
        };
        let (prog, triggers) = match parse_file_with_triggers(file) {
            Ok(x) => x,
            Err(e) => {
                proof {
                    lemma_gathered_err(sources@, (i + 1) as nat, sources@.len());
                }
                return Err(e);
            },
        };
        let tah = match build_threads(&triggers, &prog, unmapped) {
            Ok(t) => t,
            Err(e) => {
                proof {
                    lemma_gathered_err(sources@, (i + 1) as nat, sources@.len());
                }
                return Err(e);
            },
        };
        proof {
            assert(sources@[i as int].1 == *file);
            assert(sources_drop(sources@, (i + 1) as nat) == (sources_drop(sources@, i as nat) || source_drops(
                trigger_views(triggers@),
                stmt_views(prog.stmts@),
            )));
            assert((unmapped@.len() == 0) == (e0 && !sources_drop(sources@, (i + 1) as nat)));
        }
        let ghost m0 = stmt_views(merged@);
        let ghost p0 = per_views(per@);
        let ghost h0 = function_views(helpers@);
        let ghost s0 = string_views(messages@);
        let mut flat_stmts = flat.stmts;
        let ghost fv = stmt_views(flat_stmts@);
        merged.append(&mut flat_stmts);
        let ThreadsAndHelpers { threads, helpers: mut hs, messages: mut ms } = tah;
        let ghost tv = thread_views(threads@);
        let ghost hv = function_views(hs@);
        let ghost mv = string_views(ms@);
        let ghost nv = name@;
        per.push((owned(name.as_str()), threads));
        helpers.append(&mut hs);
        messages.append(&mut ms);
        proof {
            assert(stmt_views(merged@) =~= m0 + fv);
            assert(per_views(per@) =~= p0.push((nv, tv)));
            assert(function_views(helpers@) =~= h0 + hv);
            assert(string_views(messages@) =~= s0 + mv);
        }
        i = i + 1;
    }
    Ok((merged, per, helpers, messages))
}

/// The variable names of each source file.
fn names_per_source(sources: &Vec<(String, SourceFile)>) -> (r: Vec<Vec<String>>)
    ensures
        r@.len() == sources@.len(),
        forall|k: int| 0 <= k < r@.len() ==> string_views(#[trigger] r@[k]@) == source_names(sources@[k].1),
{
    let mut out: Vec<Vec<String>> = Vec::new();
    let mut i: usize = 0;
    while i < sources.len()
        invariant
            i <= sources.len(),
            out@.len() == i,
            forall|k: int| 0 <= k < i ==> string_views(#[trigger] out@[k]@) == source_names(sources@[k].1),
        decreases sources.len() - i,
    {
        let names = match parse_file(&sources[i].1) {
            Ok(p) => {
                let evs = program_names(&p);
                names_of_events(&evs)
            },
            Err(_) => {
                let v: Vec<String> = Vec::new();
                proof {
                    assert(string_views(v@) =~= Seq::<Seq<char>>::empty());
                }
                v
            },
        };
        out.push(names);
        i = i + 1;
    }
    out
}

fn owner_index(names: &Vec<Vec<String>>, name: &str) -> (r: Option<usize>)
    ensures
        r matches Some(k) ==> k < names@.len() && string_views(names@[k as int]@).contains(name@) && forall|j: int|
            0 <= j < k ==> !string_views(#[trigger] names@[j]@).contains(name@),
        r is None ==> forall|j: int| 0 <= j < names@.len() ==> !string_views(#[trigger] names@[j]@).contains(name@),
{
    let mut k: usize = 0;
    while k < names.len()
        invariant
            k <= names.len(),
            forall|j: int| 0 <= j < k ==> !string_views(#[trigger] names@[j]@).contains(name@),
        decreases names.len() - k,
    {
        if contains_text(&names[k], name) {
            return Some(k);
        }
        k = k + 1;
    }
    None
}

proof fn lemma_owner(srcs: Seq<(String, SourceFile)>, names: Seq<Seq<Seq<char>>>, name: Seq<char>, k: nat, found: Option<nat>)
    requires
        names.len() == srcs.len(),
        forall|j: int| 0 <= j < names.len() ==> #[trigger] names[j] == source_names(srcs[j].1),
        k <= srcs.len(),
        forall|j: int| k <= j < names.len() && (found is None || j < found.unwrap()) ==> !names[j].contains(name),
        found matches Some(f) ==> k <= f < names.len() && names[f as int].contains(name),
    ensures
        owner_of(srcs, name, k) == match found {
            Some(f) => Some(srcs[f as int].0@),
            None => None,
        },
    decreases srcs.len() - k,
{
    if k < srcs.len() {
        if found == Some(k) {
        } else {
            assert(!names[k as int].contains(name));
            lemma_owner(srcs, names, name, k + 1, found);
        }
    }
}

/// Builds the project from source files (each with its stem) and a base
/// project; also gives the messages of the statements that were left out
/// for having no Entry block. The base must be an object (or `null`).
pub fn compile_with_options(sources: &Vec<(String, SourceFile)>, base: &Json, options: &CompileOptions) -> (r: crate::error::Result<(Json, Vec<String>)>)
    requires
        base@ is Object || base@ is Null,
    ensures
        match gathered(sources@, sources@.len()) {
            Err(k) => r matches Err(e) && e.kind() == k,
            Ok(g) => r matches Ok((p, w)) && (w@.len() == 0) == !sources_drop(sources@, sources@.len()) && exists|bl: Seq<VarInfoV>|
                lists_vars(bl, var_map_of(body_events(g.merged, g.merged.len()), seq![])) && p@ == built_project(
                    sources@,
                    base@,
                    scene_option(options),
                    g,
                    bl,
                ),
        },
{
    let mut unmapped: Vec<String> = Vec::new();
    let (merged, per, helpers, messages) = match gather(sources, &mut unmapped) {
        Ok(x) => x,
        Err(e) => return Err(e),
    };
    let ghost g = gathered(sources@, sources@.len())->Ok_0;
    let names = names_per_source(sources);
    // variables
    let program = Program { stmts: merged };
    let empty = VarMap::new();
    let vm = collect_var_map(&program, &empty);
    proof {
        let bl0 = choose|bl0: Seq<VarInfoV>| lists_vars(bl0, empty@) && vm@ == var_map_of(program_events(&program), bl0);
        if bl0.len() > 0 {
            assert(empty@.ids.contains_key(bl0[0].id));
        }
        assert(bl0 =~= Seq::<VarInfoV>::empty());
        assert(program_events(&program) == body_events(g.merged, g.merged.len()));
    }
    let list = vm.iter();
    let ghost bl = info_ref_views(list@);
    let mut entries: Vec<Json> = Vec::new();
    let mut i: usize = 0;
    let ghost nv = names@.map_values(|v: Vec<String>| string_views(v@));
    proof {
        assert forall|j: int| 0 <= j < nv.len() implies #[trigger] nv[j] == source_names(sources@[j].1) by {}
    }
    while i < list.len()
        invariant
            i <= list.len(),
            bl == info_ref_views(list@),
            names@.len() == sources@.len(),
            nv == names@.map_values(|v: Vec<String>| string_views(v@)),
            forall|j: int| 0 <= j < nv.len() ==> #[trigger] nv[j] == source_names(sources@[j].1),
            json_views(entries@) == var_entries_of(bl, sources@).take(i as int),
        decreases list.len() - i,
    {
        let v = list[i];
        let oi = owner_index(&names, v.name.as_str());
        let owner = match oi {
            Some(k) => Some(&sources[k].0),
            None => None,
        };
        proof {
            let found: Option<nat> = match oi {
                Some(k) => Some(k as nat),
                None => None,
            };
            assert forall|j: int| 0 <= j < nv.len() && (found is None || j < found.unwrap()) implies !nv[j].contains(v.name@) by {
                assert(nv[j] == string_views(names@[j]@));
            }
            if let Some(k) = oi {
                assert(nv[k as int] == string_views(names@[k as int]@));
            }
            lemma_owner(sources@, nv, v.name@, 0, found);
            assert(bl[i as int] == v@);
            assert(opt_text(owner) == owner_of(sources@, v.name@, 0));
        }
        let e = var_json_of(v, owner);
        let ghost before = json_views(entries@);
        entries.push(e);
        proof {
            let all = var_entries_of(bl, sources@);
            assert(json_views(entries@) =~= before.push(e@));
            assert(all[i as int] == var_json(bl[i as int], owner_of(sources@, bl[i as int].name, 0)));
            assert(all.take(i + 1) =~= all.take(i as int).push(all[i as int]));
        }
        i = i + 1;
    }
    proof {
        assert(var_entries_of(bl, sources@).take(i as int) =~= var_entries_of(bl, sources@));
    }
    // project.variables: base entries merged by id with the new ones
    let base_vars = array_copy(base, "variables");
    let merged_vars = merge_entries(base_vars, &entries);
    let p1 = crate::json::with_member(base.duplicate(), "variables", crate::json::array_of(merged_vars));
    proof {
        assert(p1@ == with_vars(base@, var_entries_of(bl, sources@)));
    }
    // project.scripts as in the base
    let p2 = match base.get("scripts") {
        Some(x) => crate::json::with_member(p1, "scripts", x.duplicate()),
        None => crate::json::without_member(p1, "scripts"),
    };
    proof {
        assert(p2@ == with_scripts(p1@, base@));
    }
    // threads to the objects of the same name
    let (p3, unmatched) = attach_threads(p2, &per);
    let p4 = add_new_objects(p3, &per, &unmatched, base, options);
    let p5 = add_functions(p4, &helpers);
    let p6 = add_messages(p5, &messages);
    proof {
        assert(p6@ == built_project(sources@, base@, scene_option(options), g, bl));
        assert(lists_vars(bl, var_map_of(body_events(g.merged, g.merged.len()), seq![])));
    }
    Ok((p6, unmapped))
}

/// The objects of the project with each file's threads given to the object
/// of its name; the indices of the files that found none.
fn attach_threads(p: Json, per: &Vec<(String, Vec<Vec<Json>>)>) -> (r: (Json, Vec<usize>))
    requires
        p@ is Object,
    ensures
        r.0@ == with_objects(p@, per_views(per@)).0,
        r.0@ is Object,
        r.1@.map_values(|i: usize| per_views(per@)[i as int]) == with_objects(p@, per_views(per@)).1,
        forall|k: int| 0 <= k < r.1@.len() ==> r.1@[k] < per@.len(),
{
    let objs: Option<Vec<Json>> = match p.get("objects") {
        Some(x) => match x.as_array() {
            Some(_) => Some(array_copy(&p, "objects")),
            None => None,
        },
        None => None,
    };
    match objs {
        Some(arr) => {
            let (os, un) = patch_objects(arr, per);
            (crate::json::with_member(p, "objects", crate::json::array_of(os)), un)
        },
        None => {
            let mut un: Vec<usize> = Vec::new();
            let mut i: usize = 0;
            let ghost pv = per_views(per@);
            while i < per.len()
                invariant
                    i <= per.len(),
                    pv == per_views(per@),
                    un@.map_values(|q: usize| pv[q as int]) == pv.take(i as int),
                    forall|k: int| 0 <= k < un@.len() ==> un@[k] < per@.len(),
                decreases per.len() - i,
            {
                let ghost before = un@.map_values(|q: usize| pv[q as int]);
                un.push(i);
                proof {
                    assert(un@.map_values(|q: usize| pv[q as int]) =~= before.push(pv[i as int]));
                    assert(pv.take(i + 1) =~= pv.take(i as int).push(pv[i as int]));
                }
                i = i + 1;
            }
            proof {
                assert(pv.take(i as int) =~= pv);
            }
            (p, un)
        },
    }
}

/// Appends a new object for each unmatched file, with ids that are free at
/// the time each is made.
fn add_new_objects(p: Json, per: &Vec<(String, Vec<Vec<Json>>)>, unmatched: &Vec<usize>, base: &Json, options: &CompileOptions) -> (r: Json)
    requires
        p@ is Object,
        forall|k: int| 0 <= k < unmatched@.len() ==> unmatched@[k] < per@.len(),
    ensures
        r@ == with_fakes(p@, unmatched@.map_values(|i: usize| per_views(per@)[i as int]), base@, scene_option(options)),
        r@ is Object,
{
    let ghost un = unmatched@.map_values(|i: usize| per_views(per@)[i as int]);
    let ghost sc = scene_option(options);
    if unmatched.len() == 0 {
        return p;
    }
    let current = array_copy(&p, "objects");
    let mut q = p;
    let mut start: usize = 0;
    if current.len() == 0 {
        let k = unmatched[0];
        let no_ids: Vec<String> = Vec::new();
        proof {
            assert(string_views(no_ids@) =~= Seq::<Seq<char>>::empty());
            assert(per_views(per@)[k as int] == (per@[k as int].0@, thread_views(per@[k as int].1@)));
        }
        let fake = make_fake_object(per[k].0.as_str(), &per[k].1, base, &no_ids, options);
        let mut one: Vec<Json> = Vec::new();
        one.push(fake);
        proof {
            assert(json_views(one@) =~= seq![fake@]);
        }
        q = crate::json::with_member(q, "objects", crate::json::array_of(one));
        start = 1;
    }
    let ghost first = q@;
    proof {
        assert(appended(first, un, start as nat, start as nat, base@, sc) == first);
    }
    let mut i: usize = start;
    while i < unmatched.len()
        invariant
            start <= i <= unmatched@.len(),
            un == unmatched@.map_values(|i: usize| per_views(per@)[i as int]),
            forall|k: int| 0 <= k < unmatched@.len() ==> unmatched@[k] < per@.len(),
            sc == scene_option(options),
            q@ is Object,
            q@ == appended(first, un, start as nat, i as nat, base@, sc),
        decreases unmatched.len() - i,
    {
        let mut objs = array_copy(&q, "objects");
        let taken = ids_of(&objs);
        let k = unmatched[i];
        proof {
            assert(un[i as int] == per_views(per@)[k as int]);
            assert(per_views(per@)[k as int] == (per@[k as int].0@, thread_views(per@[k as int].1@)));
        }
        let fake = make_fake_object(per[k].0.as_str(), &per[k].1, base, &taken, options);
        let ghost ov = json_views(objs@);
        objs.push(fake);
        proof {
            assert(json_views(objs@) =~= ov.push(fake@));
        }
        q = crate::json::with_member(q, "objects", crate::json::array_of(objs));
        i = i + 1;
    }
    q
}

fn add_functions(p: Json, helpers: &Vec<FunctionDef>) -> (r: Json)
    requires
        p@ is Object,
    ensures
        r@ == with_functions(p@, function_views(helpers@)),
        r@ is Object,
{
    if helpers.len() == 0 {
        return p;
    }
    let fs = array_copy(&p, "functions");
    let merged = merge_function_entries(fs, helpers);
    crate::json::with_member(p, "functions", crate::json::array_of(merged))
}

fn add_messages(p: Json, messages: &Vec<String>) -> (r: Json)
    requires
        p@ is Object,
    ensures
        r@ == with_messages(p@, string_views(messages@)),
        r@ is Object,
{
    if messages.len() == 0 {
        return p;
    }
    let ms = array_copy(&p, "messages");
    let merged = merge_message_entries(ms, messages);
    crate::json::with_member(p, "messages", crate::json::array_of(merged))
}

/// Builds the project with the default options.
pub fn compile(sources: &Vec<(String, SourceFile)>, base: &Json) -> (r: crate::error::Result<(Json, Vec<String>)>)
    requires
        base@ is Object || base@ is Null,
    ensures
        match gathered(sources@, sources@.len()) {
            Err(k) => r matches Err(e) && e.kind() == k,
            Ok(g) => r matches Ok((p, w)) && (w@.len() == 0) == !sources_drop(sources@, sources@.len()) && exists|bl: Seq<VarInfoV>|
                lists_vars(bl, var_map_of(body_events(g.merged, g.merged.len()), seq![])) && p@ == built_project(
                    sources@,
                    base@,
                    None,
                    g,
                    bl,
                ),
        },
{
    let options = CompileOptions { default_scene: None };
    compile_with_options(sources, base, &options)
}

/// What building from `files` gives: the gathered error, or the built
/// project with some listing of the new variables.
pub open spec fn compiled(files: Seq<(String, SourceFile)>, base: JsonV, scene: Option<Seq<char>>, r: crate::error::Result<(Json, Vec<String>)>) -> bool {
    match gathered(files, files.len()) {
        Err(k) => r matches Err(e) && e.kind() == k,
        Ok(g) => r matches Ok((p, w)) && (w@.len() == 0) == !sources_drop(files, files.len()) && exists|bl: Seq<VarInfoV>|
            lists_vars(bl, var_map_of(body_events(g.merged, g.merged.len()), seq![])) && p@ == built_project(files, base, scene, g, bl),
    }
}

/// The first `n` source texts each read by syn into the tree of `files`.
pub open spec fn read_as(texts: Seq<(String, String)>, files: Seq<(String, SourceFile)>, n: int) -> bool {
    &&& files.len() == n
    &&& forall|i: int| 0 <= i < n ==> (#[trigger] files[i]).0@ == texts[i].0@ && crate::syntax::syn_source(texts[i].1@)
        == Some(files[i].1.items@)
}

/// Builds the project from Rust source texts (each with its file stem),
/// read with syn, and a base project. A text that syn refuses is a `Parse`
/// error (the first such text decides); otherwise the result is that of
/// `compile_with_options` on the trees syn read.
pub fn compile_text_with_options(sources: &Vec<(String, String)>, base: &Json, options: &CompileOptions) -> (r: crate::error::Result<(Json, Vec<String>)>)
    requires
        base@ is Object || base@ is Null,
    ensures
        (exists|i: int| 0 <= i < sources@.len() && crate::syntax::syn_source(#[trigger] sources@[i].1@) is None)
            ==> (r matches Err(e) && e is Parse),
        (forall|i: int| 0 <= i < sources@.len() ==> crate::syntax::syn_source(#[trigger] sources@[i].1@) is Some) ==> exists|
            files: Seq<(String, SourceFile)>,
        | read_as(sources@, files, sources@.len() as int) && compiled(files, base@, scene_option(options), r),
{
    let mut files: Vec<(String, SourceFile)> = Vec::new();
    let mut i: usize = 0;
    while i < sources.len()
        invariant
            i <= sources@.len(),
            read_as(sources@, files@, i as int),
            forall|j: int| 0 <= j < i ==> crate::syntax::syn_source(#[trigger] sources@[j].1@) is Some,
        decreases sources@.len() - i,
    {
        match crate::syntax::parse_source(sources[i].1.as_str()) {
            Ok(f) => {
                let stem = sources[i].0.clone();
                let ghost before = files@;
                files.push((stem, f));
                proof {
                    assert forall|j: int| 0 <= j < i + 1 implies (#[trigger] files@[j]).0@ == sources@[j].0@
                        && crate::syntax::syn_source(sources@[j].1@) == Some(files@[j].1.items@) by {
                        if j < i {
                            assert(files@[j] == before[j]);
                        }
                    }
                }
            },
            Err(m) => {
                return Err(Error::Parse(m));
            },
        }
        i = i + 1;
    }
    let r = compile_with_options(&files, base, options);
    proof {
        assert(compiled(files@, base@, scene_option(options), r));
    }
    r
}

/// `compile_text_with_options` with no scene given.
pub fn compile_text(sources: &Vec<(String, String)>, base: &Json) -> (r: crate::error::Result<(Json, Vec<String>)>)
    requires
        base@ is Object || base@ is Null,
    ensures
        (exists|i: int| 0 <= i < sources@.len() && crate::syntax::syn_source(#[trigger] sources@[i].1@) is None)
            ==> (r matches Err(e) && e is Parse),
        (forall|i: int| 0 <= i < sources@.len() ==> crate::syntax::syn_source(#[trigger] sources@[i].1@) is Some) ==> exists|
            files: Seq<(String, SourceFile)>,
        | read_as(sources@, files, sources@.len() as int) && compiled(files, base@, None, r),
{
    let options = CompileOptions { default_scene: None };
    compile_text_with_options(sources, base, &options)
}

// ---------------------------------------------------------------------------
// A project from one program
// ---------------------------------------------------------------------------

/// The short `variables` entry that a program's project gets.
pub open spec fn short_var_json(v: VarInfoV) -> JsonV {
    JsonV::Object(
        seq![
            ("id"@, JsonV::Str(v.id)),
            ("name"@, JsonV::Str(v.name)),
            ("variableType"@, JsonV::Str(type_text(v.kind))),
            ("value"@, init_json(v.init)),
        ],
    )
}

pub open spec fn short_entries_of(bl: Seq<VarInfoV>) -> Seq<JsonV> {
    bl.map_values(|v: VarInfoV| short_var_json(v))
}

/// The blocks of the first `n` statements; any failure stops the work.
pub open spec fn all_blocks(ss: Seq<StmtV>, n: nat) -> Result<Seq<JsonV>, ErrorKind>
    decreases n,
{
    if n == 0 || n > ss.len() {
        Ok(seq![])
    } else {
        match all_blocks(ss, (n - 1) as nat) {
            Err(k) => Err(k),
            Ok(p) => match low_stmt(ss[n - 1]) {
                Ok(b) => Ok(p.push(enc_block(b))),
                Err(k) => Err(k),
            },
        }
    }
}

/// The project of one program: the original document with its `scripts`
/// set to the program's blocks and the program's variables merged by id.
pub open spec fn generated(blocks: Seq<JsonV>, original: JsonV, bl: Seq<VarInfoV>) -> JsonV {
    let p1 = jset(original, "scripts"@, JsonV::Array(blocks));
    let news = short_entries_of(bl);
    jset(p1, "variables"@, JsonV::Array(merge_by_id(array_at(p1, "variables"@), news, news.len())))
}

proof fn lemma_all_err(ss: Seq<StmtV>, a: nat, b: nat)
    requires
        a <= b <= ss.len(),
        all_blocks(ss, a) is Err,
    ensures
        all_blocks(ss, b) == all_blocks(ss, a),
    decreases b,
{
    if a < b {
        lemma_all_err(ss, a, (b - 1) as nat);
    }
}

fn short_var_of(v: &VarInfo) -> (r: Json)
    ensures
        r@ == short_var_json(v@),
{
    let mut m: Vec<(String, Json)> = Vec::new();
    m.push(field("id", text_json(v.id.as_str())));
    m.push(field("name", text_json(v.name.as_str())));
    m.push(field("variableType", text_json(type_str(v.kind))));
    m.push(field("value", init_value(v.init)));
    proof {
        assert(crate::json::member_views(m@) =~= short_var_json(v@)->Object_0);
    }
    crate::json::object_of(m)
}

fn blocks_of(program: &Program) -> (r: crate::error::Result<Vec<Json>>)
    ensures
        agrees_kept(r, all_blocks(stmt_views(program.stmts@), program.stmts@.len())),
{
    let ghost sv = stmt_views(program.stmts@);
    let mut blocks: Vec<Json> = Vec::new();
    let mut i: usize = 0;
    proof {
        assert(json_views(blocks@) =~= Seq::<JsonV>::empty());
    }
    while i < program.stmts.len()
        invariant
            i <= program.stmts.len(),
            sv == stmt_views(program.stmts@),
            all_blocks(sv, i as nat) == Ok::<Seq<JsonV>, ErrorKind>(json_views(blocks@)),
        decreases program.stmts.len() - i,
    {
        proof {
            assert(sv[i as int] == program.stmts@[i as int]@);
        }
        let b = match from_stmt(&program.stmts[i]) {
            Ok(b) => b,
            Err(e) => {
                proof {
                    lemma_all_err(sv, (i + 1) as nat, sv.len());
                }
                return Err(e);
            },
        };
        let v = match to_value(&b) {
            Ok(v) => v,
            Err(e) => return Err(e),
        };
        let ghost before = json_views(blocks@);
        blocks.push(v);
        proof {
            assert(json_views(blocks@) =~= before.push(enc_block(b@)));
        }
        i = i + 1;
    }
    Ok(blocks)
}

fn short_entries(list: &Vec<&VarInfo>) -> (r: Vec<Json>)
    ensures
        json_views(r@) == short_entries_of(info_ref_views(list@)),
{
    let ghost bl = info_ref_views(list@);
    let ghost news = short_entries_of(bl);
    let mut entries: Vec<Json> = Vec::new();
    let mut k: usize = 0;
    while k < list.len()
        invariant
            k <= list.len(),
            bl == info_ref_views(list@),
            news == short_entries_of(bl),
            json_views(entries@) == news.take(k as int),
        decreases list.len() - k,
    {
        let e = short_var_of(list[k]);
        let ghost before = json_views(entries@);
        entries.push(e);
        proof {
            assert(bl[k as int] == list@[k as int]@);
            assert(json_views(entries@) =~= before.push(e@));
            assert(news.take(k + 1) =~= news.take(k as int).push(news[k as int]));
        }
        k = k + 1;
    }
    proof {
        assert(news.take(k as int) =~= news);
    }
    entries
}

fn assemble_generated(blocks: Vec<Json>, original: &Json, program: &Program) -> (r: Json)
    requires
        original@ is Object || original@ is Null,
    ensures
        exists|bl: Seq<VarInfoV>|
            lists_vars(bl, var_map_of(program_events(program), seq![])) && r@ == generated(json_views(blocks@), original@, bl),
{
    let ghost bs = json_views(blocks@);
    let empty = VarMap::new();
    let vm = collect_var_map(program, &empty);
    proof {
        let bl0 = choose|bl0: Seq<VarInfoV>| lists_vars(bl0, empty@) && vm@ == var_map_of(program_events(program), bl0);
        if bl0.len() > 0 {
            assert(empty@.ids.contains_key(bl0[0].id));
        }
        assert(bl0 =~= Seq::<VarInfoV>::empty());
        assert(vm@ == var_map_of(program_events(program), seq![]));
    }
    let list = vm.iter();
    let ghost bl = info_ref_views(list@);
    let entries = short_entries(&list);
    let p1 = crate::json::with_member(original.duplicate(), "scripts", crate::json::array_of(blocks));
    let base_vars = array_copy(&p1, "variables");
    let merged = merge_entries(base_vars, &entries);
    let p2 = crate::json::with_member(p1, "variables", crate::json::array_of(merged));
    proof {
        assert(p2@ == generated(bs, original@, bl));
        assert(lists_vars(bl, var_map_of(program_events(program), seq![])) && p2@ == generated(bs, original@, bl));
    }
    p2
}

/// The project document of one program, from an original document (an
/// object, or `null`). Unlike a build, a statement without an Entry block
/// fails the whole call.
pub fn generate(program: &Program, original: &Json) -> (r: crate::error::Result<Json>)
    requires
        original@ is Object || original@ is Null,
    ensures
        all_blocks(stmt_views(program.stmts@), program.stmts@.len()) matches Err(k) ==> r matches Err(e) && e.kind() == k,
        all_blocks(stmt_views(program.stmts@), program.stmts@.len()) matches Ok(bs) ==> r matches Ok(p) && exists|bl: Seq<VarInfoV>|
            lists_vars(bl, var_map_of(program_events(program), seq![])) && p@ == generated(bs, original@, bl),
{
    match blocks_of(program) {
        Ok(b) => {
            let ghost bs = json_views(b@);
            let p = assemble_generated(b, original, program);
            proof {
                let bl = choose|bl: Seq<VarInfoV>|
                    lists_vars(bl, var_map_of(program_events(program), seq![])) && p@ == generated(bs, original@, bl);
                assert(all_blocks(stmt_views(program.stmts@), program.stmts@.len()) == Ok::<Seq<JsonV>, ErrorKind>(bs));
                assert(lists_vars(bl, var_map_of(program_events(program), seq![])) && p@ == generated(bs, original@, bl));
                assert(exists|bl2: Seq<VarInfoV>|
                    lists_vars(bl2, var_map_of(program_events(program), seq![])) && p@ == generated(bs, original@, bl2));
            }
            let res: crate::error::Result<Json> = Ok(p);
            proof {
                assert(res matches Ok(p3) && exists|bl4: Seq<VarInfoV>|
                    lists_vars(bl4, var_map_of(program_events(program), seq![])) && p3@ == generated(bs, original@, bl4));
                assert(all_blocks(stmt_views(program.stmts@), program.stmts@.len()) matches Ok(bs5) ==> res matches Ok(p5) && exists|bl5: Seq<VarInfoV>|
                    lists_vars(bl5, var_map_of(program_events(program), seq![])) && p5@ == generated(bs5, original@, bl5));
            }
            res
        },
        Err(e) => {
            proof {
                assert(all_blocks(stmt_views(program.stmts@), program.stmts@.len()) == Err::<Seq<JsonV>, ErrorKind>(e.kind()));
            }
            Err(e)
        },
    }
}

// ---------------------------------------------------------------------------
// Laws
// ---------------------------------------------------------------------------

pub open spec fn has_id(s: Seq<JsonV>, id: Seq<char>) -> bool {
    exists|j: int| 0 <= j < s.len() && entry_id(s[j]) == Some(id)
}

proof fn lemma_merge_ids(base: Seq<JsonV>, news: Seq<JsonV>, n: nat)
    requires
        n <= news.len(),
    ensures
        forall|i: int| 0 <= i < base.len() && entry_id(base[i]) is Some ==> has_id(
            merge_by_id(base, news, n),
            entry_id(base[i]).unwrap(),
        ),
        forall|i: int| 0 <= i < n && entry_id(news[i]) is Some ==> has_id(
            merge_by_id(base, news, n),
            entry_id(news[i]).unwrap(),
        ),
    decreases n,
{
    if n > 0 {
        lemma_merge_ids(base, news, (n - 1) as nat);
        let acc = merge_by_id(base, news, (n - 1) as nat);
        let v = news[n - 1];
        let r = merge_by_id(base, news, n);
        // every id of `acc` stays an id of `r`
        assert forall|id: Seq<char>| has_id(acc, id) implies has_id(r, id) by {
            let j = choose|j: int| 0 <= j < acc.len() && entry_id(acc[j]) == Some(id);
            match entry_id(v) {
                Some(vid) => match index_of_id(acc, vid, 0) {
                    Some(q) => {
                        lemma_index_of_id(acc, vid, 0);
                        if j == q {
                            assert(entry_id(r[q]) == Some(vid));
                        } else {
                            assert(r[j] == acc[j]);
                        }
                    },
                    None => {
                        assert(r[j] == acc[j]);
                    },
                },
                None => {
                    assert(r[j] == acc[j]);
                },
            }
        }
        // the id of the new entry is an id of `r`
        if let Some(vid) = entry_id(v) {
            match index_of_id(acc, vid, 0) {
                Some(q) => {
                    lemma_index_of_id(acc, vid, 0);
                    assert(entry_id(r[q]) == Some(vid));
                },
                None => {
                    assert(entry_id(r[acc.len() as int]) == Some(vid));
                },
            }
        }
        assert forall|i: int| 0 <= i < base.len() && entry_id(base[i]) is Some implies has_id(
            r,
            entry_id(base[i]).unwrap(),
        ) by {
            assert(has_id(acc, entry_id(base[i]).unwrap()));
        }
        assert forall|i: int| 0 <= i < n && entry_id(news[i]) is Some implies has_id(
            r,
            entry_id(news[i]).unwrap(),
        ) by {
            if i < n - 1 {
                assert(has_id(acc, entry_id(news[i]).unwrap()));
            }
        }
    }
}

/// Merging variables by id loses no id: every id of the base entries and
/// every id of the new entries is the id of an entry of the result.
pub proof fn law_merge_keeps_ids(base: Seq<JsonV>, news: Seq<JsonV>)
    ensures
        forall|i: int| 0 <= i < base.len() && entry_id(base[i]) is Some ==> has_id(
            merge_by_id(base, news, news.len()),
            entry_id(base[i]).unwrap(),
        ),
        forall|i: int| 0 <= i < news.len() && entry_id(news[i]) is Some ==> has_id(
            merge_by_id(base, news, news.len()),
            entry_id(news[i]).unwrap(),
        ),
{
    lemma_merge_ids(base, news, news.len());
}

proof fn lemma_merge_positions(base: Seq<JsonV>, news: Seq<JsonV>, n: nat, i: int)
    requires
        n <= news.len(),
        0 <= i < base.len(),
        forall|k: int| 0 <= k < n && #[trigger] entry_id(news[k]) is Some ==> entry_id(news[k]) != entry_id(base[i]),
    ensures
        base.len() <= merge_by_id(base, news, n).len() <= base.len() + n,
        merge_by_id(base, news, n)[i] == base[i],
    decreases n,
{
    if n > 0 {
        lemma_merge_positions(base, news, (n - 1) as nat, i);
        let acc = merge_by_id(base, news, (n - 1) as nat);
        let v = news[n - 1];
        if let Some(vid) = entry_id(v) {
            lemma_index_of_id(acc, vid, 0);
            if let Some(q) = index_of_id(acc, vid, 0) {
                assert(entry_id(acc[q]) == Some(vid));
                assert(q != i);
            }
        }
    }
}

/// A template variable whose id no new variable has stays where it was,
/// unchanged; merging never removes an entry and adds at most one per new
/// variable.
pub proof fn law_merge_keeps_other_entries(base: Seq<JsonV>, news: Seq<JsonV>, i: int)
    requires
        0 <= i < base.len(),
        forall|k: int| 0 <= k < news.len() && #[trigger] entry_id(news[k]) is Some ==> entry_id(news[k]) != entry_id(base[i]),
    ensures
        base.len() <= merge_by_id(base, news, news.len()).len() <= base.len() + news.len(),
        merge_by_id(base, news, news.len())[i] == base[i],
{
    lemma_merge_positions(base, news, news.len(), i);
}

proof fn lemma_merge_new_entry(base: Seq<JsonV>, news: Seq<JsonV>, n: nat, i: int) -> (j: int)
    requires
        0 <= i < n <= news.len(),
        entry_id(news[i]) is Some,
        forall|k: int| i < k < n ==> #[trigger] entry_id(news[k]) != entry_id(news[i]),
    ensures
        0 <= j < merge_by_id(base, news, n).len(),
        merge_by_id(base, news, n)[j] == news[i],
    decreases n,
{
    let acc = merge_by_id(base, news, (n - 1) as nat);
    let v = news[n - 1];
    if n - 1 == i {
        let vid = entry_id(v).unwrap();
        lemma_index_of_id(acc, vid, 0);
        match index_of_id(acc, vid, 0) {
            Some(q) => q,
            None => acc.len() as int,
        }
    } else {
        let j = lemma_merge_new_entry(base, news, (n - 1) as nat, i);
        if let Some(vid) = entry_id(v) {
            lemma_index_of_id(acc, vid, 0);
            if let Some(q) = index_of_id(acc, vid, 0) {
                assert(entry_id(acc[q]) == Some(vid));
                assert(q != j);
            }
        }
        j
    }
}

/// A new variable replaces the template variable with its id, or is added:
/// the merged entries hold it as it is, unless a later new variable has the
/// same id.
pub proof fn law_merge_new_wins(base: Seq<JsonV>, news: Seq<JsonV>, i: int)
    requires
        0 <= i < news.len(),
        entry_id(news[i]) is Some,
        forall|k: int| i < k < news.len() ==> #[trigger] entry_id(news[k]) != entry_id(news[i]),
    ensures
        exists|j: int| 0 <= j < merge_by_id(base, news, news.len()).len() && merge_by_id(base, news, news.len())[j] == news[i],
{
    let j = lemma_merge_new_entry(base, news, news.len(), i);
    assert(0 <= j < merge_by_id(base, news, news.len()).len() && merge_by_id(base, news, news.len())[j] == news[i]);
}

proof fn lemma_assoc_same_keys(a: Seq<(Seq<char>, JsonV)>, b: Seq<(Seq<char>, JsonV)>, key: Seq<char>)
    requires
        a.len() == b.len(),
        forall|i: int| 0 <= i < a.len() ==> #[trigger] a[i].0 == b[i].0 && (a[i].0 == key ==> a[i].1 == b[i].1),
    ensures
        assoc(a, key) == assoc(b, key),
    decreases a.len(),
{
    if a.len() > 0 {
        assert forall|i: int| 0 <= i < a.drop_first().len() implies #[trigger] a.drop_first()[i].0 == b.drop_first()[i].0
            && (a.drop_first()[i].0 == key ==> a.drop_first()[i].1 == b.drop_first()[i].1) by {
            assert(a.drop_first()[i] == a[i + 1]);
            assert(b.drop_first()[i] == b[i + 1]);
        }
        lemma_assoc_same_keys(a.drop_first(), b.drop_first(), key);
    }
}

proof fn lemma_assoc_push(m: Seq<(Seq<char>, JsonV)>, x: (Seq<char>, JsonV), key: Seq<char>)
    requires
        x.0 != key,
    ensures
        assoc(m.push(x), key) == assoc(m, key),
    decreases m.len(),
{
    let mp = m.push(x);
    if m.len() > 0 {
        assert(mp[0] == m[0]);
        assert(mp.drop_first() =~= m.drop_first().push(x));
        lemma_assoc_push(m.drop_first(), x, key);
    } else {
        assert(mp[0] == x);
        assert(mp.drop_first().len() == 0);
        assert(assoc(mp.drop_first(), key) is None);
    }
}

/// Setting an object's `script` leaves its name as it was.
proof fn lemma_script_keeps_name(o: JsonV, v: JsonV, stem: Seq<char>)
    ensures
        name_matches(jset(o, "script"@, v), stem) == name_matches(o, stem),
{
    reveal_strlit("script");
    reveal_strlit("name");
    assert("script"@ != "name"@) by {
        assert("script"@[0] != "name"@[0]);
    }
    match o {
        JsonV::Object(m) => {
            if exists|i: int| 0 <= i < m.len() && m[i].0 == "script"@ {
                let m2 = Seq::new(m.len(), |i: int| if m[i].0 == "script"@ { ("script"@, v) } else { m[i] });
                lemma_assoc_same_keys(m2, m, "name"@);
            } else {
                lemma_assoc_push(m, ("script"@, v), "name"@);
            }
        },
        _ => {
            let m1 = seq![("script"@, v)];
            assert(m1[0].0 != "name"@);
            assert(m1.drop_first().len() == 0);
            assert(assoc(m1.drop_first(), "name"@) is None);
            assert(assoc(m1, "name"@) is None);
        },
    }
}

proof fn lemma_first_named_same_names(a: Seq<JsonV>, b: Seq<JsonV>, stem: Seq<char>, k: nat)
    requires
        a.len() == b.len(),
        forall|i: int| 0 <= i < a.len() ==> name_matches(#[trigger] a[i], stem) == name_matches(b[i], stem),
    ensures
        first_named(a, stem, k) == first_named(b, stem, k),
    decreases a.len() - k,
{
    if k < a.len() {
        lemma_first_named_same_names(a, b, stem, k + 1);
    }
}

/// The source files that name no object, in their order.
pub open spec fn unmatched_sources(objs: Seq<JsonV>, per: Seq<(Seq<char>, Seq<Seq<JsonV>>)>) -> Seq<(Seq<char>, Seq<Seq<JsonV>>)> {
    per.filter(|p: (Seq<char>, Seq<Seq<JsonV>>)| first_named(objs, p.0, 0) is None)
}

proof fn lemma_patched(objs: Seq<JsonV>, per: Seq<(Seq<char>, Seq<Seq<JsonV>>)>, n: nat)
    requires
        n <= per.len(),
    ensures
        patched_objects(objs, per, n).0.len() == objs.len(),
        forall|i: int, stem: Seq<char>| 0 <= i < objs.len() ==> #[trigger] name_matches(patched_objects(objs, per, n).0[i], stem)
            == name_matches(objs[i], stem),
        patched_objects(objs, per, n).1 == unmatched_sources(objs, per.take(n as int)),
    decreases n,
{
    if n == 0 {
        assert(per.take(0).filter(|p: (Seq<char>, Seq<Seq<JsonV>>)| first_named(objs, p.0, 0) is None) =~= seq![]);
    } else {
        lemma_patched(objs, per, (n - 1) as nat);
        let (os, un) = patched_objects(objs, per, (n - 1) as nat);
        let (stem, th) = per[n - 1];
        lemma_first_named_same_names(os, objs, stem, 0);
        lemma_first_named(os, stem, 0);
        let r = patched_objects(objs, per, n);
        if let Some(i) = first_named(os, stem, 0) {
            assert forall|q: int, s2: Seq<char>| 0 <= q < objs.len() implies #[trigger] name_matches(r.0[q], s2)
                == name_matches(objs[q], s2) by {
                if q == i {
                    lemma_script_keeps_name(os[i], script_value(th), s2);
                }
            }
        }
        assert(per.take(n as int) =~= per.take(n - 1).push(per[n - 1]));
        per.take(n - 1).lemma_filter_push(per[n - 1], |p: (Seq<char>, Seq<Seq<JsonV>>)| first_named(objs, p.0, 0) is None);
    }
}

/// Each source file goes to the first object whose name equals its file
/// stem, ignoring ASCII case; no object is added or removed there, and the
/// files that name no object are exactly those that become new objects, in
/// their order.
pub proof fn law_sources_match_objects(objs: Seq<JsonV>, per: Seq<(Seq<char>, Seq<Seq<JsonV>>)>)
    ensures
        patched_objects(objs, per, per.len()).0.len() == objs.len(),
        patched_objects(objs, per, per.len()).1 == unmatched_sources(objs, per),
{
    lemma_patched(objs, per, per.len());
    assert(per.take(per.len() as int) =~= per);
}

proof fn lemma_assoc_absent(m: Seq<(Seq<char>, JsonV)>, key: Seq<char>)
    requires
        forall|i: int| 0 <= i < m.len() ==> #[trigger] m[i].0 != key,
    ensures
        assoc(m, key) is None,
    decreases m.len(),
{
    if m.len() > 0 {
        assert forall|i: int| 0 <= i < m.drop_first().len() implies #[trigger] m.drop_first()[i].0 != key by {
            assert(m.drop_first()[i] == m[i + 1]);
        }
        lemma_assoc_absent(m.drop_first(), key);
    }
}

proof fn lemma_assoc_set(a: Seq<(Seq<char>, JsonV)>, b: Seq<(Seq<char>, JsonV)>, key: Seq<char>, v: JsonV)
    requires
        a.len() == b.len(),
        forall|i: int| 0 <= i < a.len() ==> #[trigger] b[i] == if a[i].0 == key { (key, v) } else { a[i] },
        exists|i: int| 0 <= i < a.len() && a[i].0 == key,
    ensures
        assoc(b, key) == Some(v),
    decreases a.len(),
{
    if a[0].0 != key {
        let i = choose|i: int| 0 <= i < a.len() && a[i].0 == key;
        assert(i > 0);
        assert(a.drop_first()[i - 1].0 == key);
        assert forall|j: int| 0 <= j < a.drop_first().len() implies #[trigger] b.drop_first()[j] == if a.drop_first()[j].0 == key {
            (key, v)
        } else {
            a.drop_first()[j]
        } by {
            assert(b.drop_first()[j] == b[j + 1]);
            assert(a.drop_first()[j] == a[j + 1]);
        }
        lemma_assoc_set(a.drop_first(), b.drop_first(), key, v);
    }
}

/// Setting member `k` of an object gives it the value and leaves every
/// other member as it was.
proof fn lemma_jset_members(o: JsonV, k: Seq<char>, v: JsonV, k2: Seq<char>)
    requires
        o is Object || o is Null,
    ensures
        jget(jset(o, k, v), k) == Some(v),
        k2 != k ==> jget(jset(o, k, v), k2) == jget(o, k2),
        jset(o, k, v) is Object,
{
    match o {
        JsonV::Object(m) => {
            if exists|i: int| 0 <= i < m.len() && m[i].0 == k {
                let m2 = Seq::new(m.len(), |i: int| if m[i].0 == k { (k, v) } else { m[i] });
                assert(jset(o, k, v)->Object_0 =~= m2);
                lemma_assoc_set(m, m2, k, v);
                if k2 != k {
                    lemma_assoc_same_keys(m2, m, k2);
                }
            } else {
                let m2 = m.push((k, v));
                assert(m2.take(m.len() as int) =~= m);
                lemma_assoc_absent(m, k);
                lemma_assoc_push_found(m, (k, v));
                if k2 != k {
                    lemma_assoc_push(m, (k, v), k2);
                }
            }
        },
        _ => {
            let m1 = seq![(k, v)];
            assert(m1.drop_first().len() == 0);
            assert(assoc(m1.drop_first(), k2) is None);
        },
    }
}

proof fn lemma_assoc_push_found(m: Seq<(Seq<char>, JsonV)>, x: (Seq<char>, JsonV))
    requires
        assoc(m, x.0) is None,
    ensures
        assoc(m.push(x), x.0) == Some(x.1),
    decreases m.len(),
{
    let mp = m.push(x);
    if m.len() > 0 {
        assert(mp[0] == m[0]);
        assert(mp.drop_first() =~= m.drop_first().push(x));
        lemma_assoc_push_found(m.drop_first(), x);
    } else {
        assert(mp[0] == x);
    }
}

/// Removing member `k` of an object leaves none of that name.
proof fn lemma_jremove_member(o: JsonV, k: Seq<char>)
    requires
        o is Object,
    ensures
        jget(jremove(o, k), k) is None,
{
    broadcast use vstd::seq_lib::group_filter_ensures;
    let f = jremove(o, k)->Object_0;
    assert forall|i: int| 0 <= i < f.len() implies #[trigger] f[i].0 != k by {}
    lemma_assoc_absent(f, k);
}

proof fn lemma_appended_keeps(p: JsonV, un: Seq<(Seq<char>, Seq<Seq<JsonV>>)>, lo: nat, n: nat, base: JsonV, scene: Option<Seq<char>>, k2: Seq<char>)
    requires
        p is Object,
        k2 != "objects"@,
    ensures
        appended(p, un, lo, n, base, scene) is Object,
        jget(appended(p, un, lo, n, base, scene), k2) == jget(p, k2),
    decreases n,
{
    if !(n <= lo || n > un.len()) {
        lemma_appended_keeps(p, un, lo, (n - 1) as nat, base, scene, k2);
        let q = appended(p, un, lo, (n - 1) as nat, base, scene);
        let objs = array_at(q, "objects"@);
        let (stem, th) = un[n - 1];
        lemma_jset_members(q, "objects"@, JsonV::Array(objs.push(fake_object(stem, th, base, object_ids(objs, objs.len()), scene))), k2);
    }
}

/// The template's `scripts` member is the project's: it is kept as it is,
/// and stays absent when the template has none.
pub proof fn law_template_scripts_kept(srcs: Seq<(String, SourceFile)>, base: JsonV, scene: Option<Seq<char>>, g: Gathered, bl: Seq<VarInfoV>)
    requires
        base is Object || base is Null,
    ensures
        jget(built_project(srcs, base, scene, g, bl), "scripts"@) == jget(base, "scripts"@),
{
    reveal_strlit("scripts");
    reveal_strlit("variables");
    reveal_strlit("objects");
    reveal_strlit("functions");
    reveal_strlit("messages");
    assert("scripts"@ != "variables"@) by { assert("scripts"@[1] != "variables"@[1]); }
    assert("scripts"@ != "objects"@) by { assert("scripts"@[0] != "objects"@[0]); }
    assert("scripts"@ != "functions"@) by { assert("scripts"@[0] != "functions"@[0]); }
    assert("scripts"@ != "messages"@) by { assert("scripts"@[0] != "messages"@[0]); }
    let key = "scripts"@;
    let entries = var_entries_of(bl, srcs);
    let p1 = with_vars(base, entries);
    lemma_jset_members(base, "variables"@, JsonV::Array(merge_by_id(array_at(base, "variables"@), entries, entries.len())), key);
    let p2 = with_scripts(p1, base);
    match jget(base, key) {
        Some(x) => {
            lemma_jset_members(p1, key, x, key);
        },
        None => {
            lemma_jremove_member(p1, key);
        },
    }
    assert(p2 is Object);
    assert(jget(p2, key) == jget(base, key));
    let (p3, un) = with_objects(p2, g.per);
    if let Some(arr) = jarr(jget(p2, "objects"@)) {
        let (os, _) = patched_objects(arr, g.per, g.per.len());
        lemma_jset_members(p2, "objects"@, JsonV::Array(os), key);
    }
    assert(p3 is Object);
    assert(jget(p3, key) == jget(base, key));
    let p4 = with_fakes(p3, un, base, scene);
    if un.len() > 0 {
        if array_at(p3, "objects"@).len() == 0 {
            let first = jset(p3, "objects"@, JsonV::Array(seq![fake_object(un[0].0, un[0].1, base, seq![], scene)]));
            lemma_jset_members(p3, "objects"@, JsonV::Array(seq![fake_object(un[0].0, un[0].1, base, seq![], scene)]), key);
            lemma_appended_keeps(first, un, 1, un.len(), base, scene, key);
        } else {
            lemma_appended_keeps(p3, un, 0, un.len(), base, scene, key);
        }
    }
    assert(p4 is Object);
    assert(jget(p4, key) == jget(base, key));
    let p5 = with_functions(p4, g.helpers);
    if g.helpers.len() > 0 {
        lemma_jset_members(p4, "functions"@, JsonV::Array(merge_functions(array_at(p4, "functions"@), g.helpers, g.helpers.len())), key);
    }
    if g.messages.len() > 0 {
        lemma_jset_members(p5, "messages"@, JsonV::Array(merge_messages(array_at(p5, "messages"@), g.messages, g.messages.len())), key);
    }
}

proof fn lemma_message_value_name(name: Seq<char>)
    ensures
        jget(message_value(name), "name"@) == Some(JsonV::Str(name)),
{
    reveal_strlit("id");
    reveal_strlit("name");
    assert("id"@ != "name"@) by {
        assert("id"@.len() != "name"@.len());
    }
    let m = seq![("id"@, JsonV::Str(name)), ("name"@, JsonV::Str(name))];
    assert(m.drop_first() =~= seq![("name"@, JsonV::Str(name))]);
    assert(m[0].0 != "name"@);
    assert(m.drop_first()[0].0 == "name"@);
    assert(assoc(m.drop_first(), "name"@) == Some(JsonV::Str(name)));
    assert(assoc(m, "name"@) == Some(JsonV::Str(name)));
}

proof fn lemma_merge_messages(ms: Seq<JsonV>, names: Seq<Seq<char>>, n: nat)
    requires
        n <= names.len(),
    ensures
        merge_messages(ms, names, n).len() >= ms.len(),
        merge_messages(ms, names, n).take(ms.len() as int) == ms,
        forall|k: int| 0 <= k < n ==> has_message(merge_messages(ms, names, n), #[trigger] names[k]),
    decreases n,
{
    if n > 0 {
        lemma_merge_messages(ms, names, (n - 1) as nat);
        let acc = merge_messages(ms, names, (n - 1) as nat);
        let r = merge_messages(ms, names, n);
        if !has_message(acc, names[n - 1]) {
            assert(r == acc.push(message_value(names[n - 1])));
            assert(r.take(ms.len() as int) =~= acc.take(ms.len() as int));
            lemma_message_value_name(names[n - 1]);
            assert(r[acc.len() as int] == message_value(names[n - 1]));
            assert forall|k: int| 0 <= k < n implies has_message(r, #[trigger] names[k]) by {
                if k < n - 1 {
                    let i = choose|i: int| 0 <= i < acc.len() && jget(acc[i], "name"@) == Some(JsonV::Str(names[k]));
                    assert(r[i] == acc[i]);
                } else {
                    assert(jget(r[acc.len() as int], "name"@) == Some(JsonV::Str(names[k])));
                }
            }
        }
    }
}

/// Message names are merged into the template's messages: the template's
/// entries stay first and unchanged, and every name has a message.
pub proof fn law_messages_merged(ms: Seq<JsonV>, names: Seq<Seq<char>>)
    ensures
        merge_messages(ms, names, names.len()).take(ms.len() as int) == ms,
        forall|k: int| 0 <= k < names.len() ==> has_message(merge_messages(ms, names, names.len()), #[trigger] names[k]),
{
    lemma_merge_messages(ms, names, names.len());
}

/// The numbered form `p_i` of an id.
pub open spec fn numbered(p: Seq<char>, i: nat) -> Seq<char> {
    p + seq!['_'] + dec_text(i)
}

proof fn lemma_free_suffixed_taken(p: Seq<char>, taken: Seq<Seq<char>>, i: nat, limit: nat)
    requires
        taken.contains(free_suffixed(p, taken, i, limit)),
    ensures
        forall|k: nat| i <= k <= limit ==> taken.contains(#[trigger] numbered(p, k)),
    decreases limit - i,
{
    let c = p + seq!['_'] + dec_text(i);
    assert(c == numbered(p, i));
    if !(i >= limit || !taken.contains(c)) {
        lemma_free_suffixed_taken(p, taken, i + 1, limit);
        assert forall|k: nat| i <= k <= limit implies taken.contains(#[trigger] numbered(p, k)) by {
            if k == i {
            }
        }
    }
}

proof fn lemma_numbered_injective(p: Seq<char>, a: nat, b: nat)
    requires
        numbered(p, a) == numbered(p, b),
    ensures
        a == b,
{
    let k: int = p.len() as int + 1;
    assert(numbered(p, a).skip(k) =~= dec_text(a));
    assert(numbered(p, b).skip(k) =~= dec_text(b));
    crate::text::lemma_dec_text_injective(a, b);
}

/// A fresh id is not taken: `p` itself when free, else the first free
/// numbered form `p_2`, `p_3`, ...; the search, which stops two past the
/// number of ids taken, always finds one (within the machine's range).
pub proof fn law_free_id_is_free(p: Seq<char>, taken: Seq<Seq<char>>)
    requires
        taken.len() + 2 <= usize::MAX,
    ensures
        !taken.contains(free_id(p, taken)),
{
    if taken.contains(p) {
        let n = taken.len();
        let r = free_suffixed(p, taken, 2, id_limit(n));
        if taken.contains(r) {
            lemma_free_suffixed_taken(p, taken, 2, n + 2);
            let f = |k: int| numbered(p, k as nat);
            let x = vstd::set_lib::set_int_range(2, n as int + 3);
            vstd::set_lib::lemma_int_range(2, n as int + 3);
            assert(vstd::relations::injective_on(f, x)) by {
                assert forall|a: int, b: int| x.contains(a) && x.contains(b) && #[trigger] f(a) == #[trigger] f(b) implies a == b by {
                    lemma_numbered_injective(p, a as nat, b as nat);
                }
            }
            let y = x.map(f);
            vstd::set_lib::lemma_map_size(x, y, f);
            let t = taken.to_set();
            assert(y.subset_of(t)) by {
                assert forall|c: Seq<char>| #[trigger] y.contains(c) implies t.contains(c) by {
                    let a = choose|a: int| x.contains(a) && f(a) == c;
                    assert(taken.contains(numbered(p, a as nat)));
                }
            }
            taken.lemma_cardinality_of_set();
            vstd::set_lib::lemma_len_subset(y, t);
            assert(false);
        }
    }
}

} // verus!
