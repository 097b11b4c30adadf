//! Extraction: the objects of a `.ent` archive as script source texts, one
//! per object, named after the object.

use vstd::prelude::*;

use crate::asset::{project_assets, AssetMap, AssetMapV};
use crate::decodegen::{emit_with_var_map, program_text};
use crate::error::{Error, ErrorKind};
use crate::ir::stmt_views;
use crate::json::{jarr, jget, jstr, json_text_value, json_views, parse_json, Json, JsonV};
use crate::project::{ent_entries, ent_files};
use crate::script::{program_from_script_string_with_vars_and_assets, resolve_body, script_text_stmts};
use crate::var::{entries_map, lists_vars, name_pairs, pairs_map, var_entries, var_map_from_value, VarInfoV, VarMapV};

verus! {

/// The text that `std::str::from_utf8` reads from `bytes`.
#[verifier::external_body]
fn utf8_text(bytes: &[u8]) -> (r: Option<String>)
    ensures
        match r {
            Some(s) => vstd::utf8::valid_utf8(bytes@) && s@ == vstd::utf8::decode_utf8(bytes@),
            None => !vstd::utf8::valid_utf8(bytes@),
        },
{
    match std::str::from_utf8(bytes) {
        Ok(s) => Some(s.to_string()),
        Err(_) => None,
    }
}

/// The contents of the first file named `name`.
pub open spec fn file_named(fs: Seq<(Seq<char>, Seq<u8>)>, name: Seq<char>, k: nat) -> Option<Seq<u8>>
    decreases fs.len() - k,
{
    if k >= fs.len() {
        None
    } else if fs[k as int].0 == name {
        Some(fs[k as int].1)
    } else {
        file_named(fs, name, k + 1)
    }
}

/// How reading the project document of an archive ends.
pub enum ProjectRead {
    NoArchive,
    NoProjectFile,
    NotText,
    NotJson,
    Document(JsonV),
}

/// The project document of an archive: its `project.json`, read as UTF-8
/// JSON text.
pub open spec fn ent_project(bytes: Seq<u8>) -> ProjectRead {
    match ent_files(bytes) {
        None => ProjectRead::NoArchive,
        Some(fs) => match file_named(fs, "project.json"@, 0) {
            None => ProjectRead::NoProjectFile,
            Some(d) => if !vstd::utf8::valid_utf8(d) {
                ProjectRead::NotText
            } else {
                match json_text_value(vstd::utf8::decode_utf8(d)) {
                    Some(j) => ProjectRead::Document(j),
                    None => ProjectRead::NotJson,
                }
            },
        },
    }
}

/// The variables of a project document.
pub open spec fn project_vars(p: JsonV) -> VarMapV {
    match jget(p, "variables"@) {
        Some(JsonV::Array(es)) => VarMapV {
            ids: entries_map(var_entries(es).0),
            names: pairs_map(name_pairs(var_entries(es).0)),
        },
        _ => VarMapV { ids: Map::empty(), names: Map::empty() },
    }
}

/// The objects of a project document that have a name: the name and the
/// script text (`[]`, no threads, when the object has none).
pub open spec fn named_objects(objs: Seq<JsonV>, n: nat) -> Seq<(Seq<char>, Seq<char>)>
    decreases n,
{
    if n == 0 || n > objs.len() {
        seq![]
    } else {
        let prev = named_objects(objs, (n - 1) as nat);
        let o = objs[n - 1];
        match jstr(jget(o, "name"@)) {
            Some(name) => prev.push((name, script_of(o))),
            None => prev,
        }
    }
}

/// The script text of an object; `[]`, no threads, when it has none.
pub open spec fn script_of(o: JsonV) -> Seq<char> {
    match jstr(jget(o, "script"@)) {
        Some(s) => s,
        None => "[]"@,
    }
}

/// The named objects of a project document.
pub open spec fn project_objects(p: JsonV) -> Seq<(Seq<char>, Seq<char>)> {
    match jarr(jget(p, "objects"@)) {
        Some(objs) => named_objects(objs, objs.len()),
        None => seq![],
    }
}

/// The source text of one object: its script read with the project's
/// variables, asset ids turned back into the object's names, then printed
/// with some listing of the variables.
#[verifier::opaque]
pub open spec fn is_object_source(text: Seq<char>, script: Seq<char>, name: Seq<char>, vm: VarMapV, am: AssetMapV) -> bool {
    match script_text_stmts(script, vm) {
        Ok(x) => exists|vs: Seq<VarInfoV>| lists_vars(vs, vm) && text == program_text(resolve_body(x, am, name), vs),
        Err(_) => false,
    }
}

fn file_named_in(fs: &Vec<(String, Vec<u8>)>, name: &str) -> (r: Option<usize>)
    ensures
        match file_named(crate::project::entry_views(fs@), name@, 0) {
            Some(d) => r matches Some(i) && i < fs@.len() && fs@[i as int].1@ == d,
            None => r is None,
        },
{
    let ghost fv = crate::project::entry_views(fs@);
    let mut k: usize = 0;
    while k < fs.len()
        invariant
            k <= fs@.len(),
            fv == crate::project::entry_views(fs@),
            file_named(fv, name@, 0) == file_named(fv, name@, k as nat),
        decreases fs@.len() - k,
    {
        if crate::text::str_is(fs[k].0.as_str(), name) {
            return Some(k);
        }
        k = k + 1;
    }
    None
}

/// The project document of a `.ent` archive (its `project.json`). An
/// unreadable archive, or one without `project.json`, is a `Pack` error; a
/// `project.json` that is no UTF-8 JSON text is a `Parse` error.
pub fn read_project(bytes: &[u8]) -> (r: crate::error::Result<Json>)
    ensures
        match ent_project(bytes@) {
            ProjectRead::NoArchive => r matches Err(e) && e is Pack,
            ProjectRead::NoProjectFile => r matches Err(e) && e is Pack && e.text() == "project.json missing"@,
            ProjectRead::NotText => r matches Err(e) && e is Parse,
            ProjectRead::NotJson => r matches Err(e) && e is Parse,
            ProjectRead::Document(p) => r matches Ok(j) && j@ == p,
        },
{
    let files = match ent_entries(bytes) {
        Ok(f) => f,
        Err(e) => return Err(e),
    };
    let idx = match file_named_in(&files, "project.json") {
        Some(i) => i,
        None => return Err(Error::Pack("project.json missing".to_owned())),
    };
    let text = match utf8_text(files[idx].1.as_slice()) {
        Some(t) => t,
        None => return Err(Error::Parse("project.json is not UTF-8 text".to_owned())),
    };
    match parse_json(text.as_str()) {
        Ok(j) => Ok(j),
        Err(m) => Err(Error::Parse(m)),
    }
}

/// The objects of a `.ent` archive as source texts, each with the name of
/// its object, in the order of the project's objects (those without a
/// name are left out). An unreadable archive, or one without
/// `project.json`, is a `Pack` error; a `project.json` that is no UTF-8
/// JSON text is a `Parse` error; an object whose script cannot be read
/// makes the whole extraction fail with that script's error.
pub fn extract_sources(bytes: &[u8]) -> (r: crate::error::Result<Vec<(String, String)>>)
    ensures
        ent_project(bytes@) is NoArchive ==> (r matches Err(e) && e is Pack),
        ent_project(bytes@) is NoProjectFile ==> (r matches Err(e) && e is Pack && e.text()
            == "project.json missing"@),
        ent_project(bytes@) is NotText || ent_project(bytes@) is NotJson ==> (r matches Err(e) && e is Parse),
        ent_project(bytes@) matches ProjectRead::Document(p) ==> ({
            let objs = project_objects(p);
            &&& (forall|i: int| 0 <= i < objs.len() ==> script_text_stmts(#[trigger] objs[i].1, project_vars(p)) is Ok)
                ==> r is Ok
            &&& r matches Ok(v) ==> v@.len() == objs.len() && forall|i: int| 0 <= i < objs.len() ==> (#[trigger] v@[i]).0@
                == objs[i].0 && is_object_source(v@[i].1@, objs[i].1, objs[i].0, project_vars(p), project_assets(p))
            &&& r matches Err(e) ==> exists|i: int| 0 <= i < objs.len() && script_text_stmts(#[trigger] objs[i].1, project_vars(p))
                == Err::<Seq<crate::ir::StmtV>, ErrorKind>(e.kind())
        }),
{
    let project = match read_project(bytes) {
        Ok(j) => j,
        Err(e) => return Err(e),
    };
    let ghost p = project@;
    proof {
        assert(ent_project(bytes@) == ProjectRead::Document(p));
    }
    let vars = match project.get("variables") {
        Some(v) => var_map_from_value(v),
        None => var_map_from_value(&Json::Null),
    };
    proof {
        assert(vars@ == project_vars(p));
    }
    let assets = AssetMap::from_project_value(&project);
    let objs: &Vec<Json> = match project.get("objects") {
        Some(o) => match o.as_array() {
            Some(a) => a,
            None => return Ok(Vec::new()),
        },
        None => return Ok(Vec::new()),
    };
    let ghost ov = json_views(objs@);
    proof {
        assert(project_objects(p) == named_objects(ov, ov.len()));
    }
    let r = sources_of(objs, &vars, &assets);
    proof {
        reveal(sources_match);
        reveal(all_read);
        if r is Err {
            let e = r->Err_0;
            let q = choose|q: int| 0 <= q < project_objects(p).len() && script_text_stmts(#[trigger] project_objects(p)[q].1, vars@)
                == Err::<Seq<crate::ir::StmtV>, ErrorKind>(e.kind());
        }
    }
    r
}

/// The texts of `out` are the sources of the named objects `ns`.
#[verifier::opaque]
pub open spec fn sources_match(out: Seq<(String, String)>, ns: Seq<(Seq<char>, Seq<char>)>, vm: VarMapV, am: AssetMapV) -> bool {
    &&& out.len() == ns.len()
    &&& forall|q: int| 0 <= q < ns.len() ==> (#[trigger] out[q]).0@ == ns[q].0 && is_object_source(out[q].1@, ns[q].1, ns[q].0, vm, am)
}

/// Every script of `ns` reads.
#[verifier::opaque]
pub open spec fn all_read(ns: Seq<(Seq<char>, Seq<char>)>, vm: VarMapV) -> bool {
    forall|q: int| 0 <= q < ns.len() ==> script_text_stmts(#[trigger] ns[q].1, vm) is Ok
}

proof fn lemma_all_read_push(ns: Seq<(Seq<char>, Seq<char>)>, x: (Seq<char>, Seq<char>), vm: VarMapV)
    requires
        all_read(ns, vm),
        script_text_stmts(x.1, vm) is Ok,
    ensures
        all_read(ns.push(x), vm),
{
    reveal(all_read);
    assert forall|q: int| 0 <= q < ns.push(x).len() implies script_text_stmts(#[trigger] ns.push(x)[q].1, vm) is Ok by {
        if q < ns.len() {
            assert(ns.push(x)[q] == ns[q]);
        }
    }
}

proof fn lemma_sources_push(out: Seq<(String, String)>, ns: Seq<(Seq<char>, Seq<char>)>, e: (String, String), x: (Seq<char>, Seq<char>), vm: VarMapV, am: AssetMapV)
    requires
        sources_match(out, ns, vm, am),
        e.0@ == x.0,
        is_object_source(e.1@, x.1, x.0, vm, am),
    ensures
        sources_match(out.push(e), ns.push(x), vm, am),
{
    reveal(sources_match);
    assert forall|q: int| 0 <= q < ns.push(x).len() implies (#[trigger] out.push(e)[q]).0@ == ns.push(x)[q].0
        && is_object_source(out.push(e)[q].1@, ns.push(x)[q].1, ns.push(x)[q].0, vm, am) by {
        if q < ns.len() {
            assert(out.push(e)[q] == out[q]);
            assert(ns.push(x)[q] == ns[q]);
        }
    }
}

/// The sources of the named objects among `objs`.
fn sources_of(objs: &Vec<Json>, vars: &crate::var::VarMap, assets: &AssetMap) -> (r: crate::error::Result<Vec<(String, String)>>)
    ensures
        all_read(named_objects(json_views(objs@), objs@.len() as nat), vars@) ==> r is Ok,
        r matches Ok(v) ==> sources_match(v@, named_objects(json_views(objs@), objs@.len() as nat), vars@, assets@),
        r matches Err(e) ==> exists|q: int| 0 <= q < named_objects(json_views(objs@), objs@.len() as nat).len()
            && script_text_stmts(#[trigger] named_objects(json_views(objs@), objs@.len() as nat)[q].1, vars@)
            == Err::<Seq<crate::ir::StmtV>, ErrorKind>(e.kind()),
{
    let ghost ov = json_views(objs@);
    let ghost mut ns: Seq<(Seq<char>, Seq<char>)> = seq![];
    let mut out: Vec<(String, String)> = Vec::new();
    let mut i: usize = 0;
    proof {
        reveal(sources_match);
        reveal(all_read);
    }
    while i < objs.len()
        invariant
            i <= objs@.len(),
            ov == json_views(objs@),
            ns == named_objects(ov, i as nat),
            sources_match(out@, ns, vars@, assets@),
            all_read(ns, vars@),
        decreases objs@.len() - i,
    {
        proof {
            assert(ov[i as int] == objs@[i as int]@);
        }
        match object_source(&objs[i], vars, assets) {
            Ok(Some(e)) => {
                let ghost x = (e.0@, script_of(ov[i as int]));
                proof {
                    assert(named_objects(ov, (i + 1) as nat) == ns.push(x));
                    lemma_sources_push(out@, ns, e, x, vars@, assets@);
                    lemma_all_read_push(ns, x, vars@);
                    ns = ns.push(x);
                }
                out.push(e);
            },
            Ok(None) => {
                proof {
                    assert(named_objects(ov, (i + 1) as nat) == ns);
                }
            },
            Err(e) => {
                proof {
                    let k = ns.len() as int;
                    let ns1 = named_objects(ov, (i + 1) as nat);
                    assert(ns1 == ns.push((ns1[k].0, script_of(ov[i as int]))));
                    lemma_named_prefix(ov, (i + 1) as nat, ov.len());
                    let all = named_objects(ov, ov.len());
                    assert(all[k] == ns1[k]);
                    assert(script_text_stmts(all[k].1, vars@) == Err::<Seq<crate::ir::StmtV>, ErrorKind>(e.kind()));
                    reveal(all_read);
                }
                return Err(e);
            },
        }
        i = i + 1;
    }
    Ok(out)
}

/// The source text of one object, with its name; `None` for an object
/// without a name.
fn object_source(o: &Json, vars: &crate::var::VarMap, assets: &AssetMap) -> (r: crate::error::Result<Option<(String, String)>>)
    ensures
        match jstr(jget(o@, "name"@)) {
            None => r matches Ok(None),
            Some(name) => match script_text_stmts(script_of(o@), vars@) {
                Ok(_) => r matches Ok(Some(e)) && e.0@ == name && is_object_source(e.1@, script_of(o@), name, vars@, assets@),
                Err(k) => r matches Err(e) && e.kind() == k,
            },
        },
{
    let name = match o.get("name") {
        Some(nj) => match nj.as_str() {
            Some(n) => n,
            None => return Ok(None),
        },
        None => return Ok(None),
    };
    proof {
        reveal_strlit("[]");
    }
    let script: &str = match o.get("script") {
        Some(sj) => match sj.as_str() {
            Some(s) => s,
            None => "[]",
        },
        None => "[]",
    };
    let program = match program_from_script_string_with_vars_and_assets(script, vars, assets, name) {
        Ok(pr) => pr,
        Err(e) => return Err(e),
    };
    let src = match emit_with_var_map(&program, vars) {
        Ok(t) => t,
        Err(e) => return Err(e),
    };
    proof {
        reveal(is_object_source);
    }
    Ok(Some((name.to_owned(), src)))
}

/// The named objects of the first `a` objects come first among those of
/// the first `b`.
pub proof fn lemma_named_prefix(objs: Seq<JsonV>, a: nat, b: nat)
    requires
        a <= b <= objs.len(),
    ensures
        named_objects(objs, a).len() <= named_objects(objs, b).len(),
        forall|q: int| 0 <= q < named_objects(objs, a).len() ==> #[trigger] named_objects(objs, b)[q] == named_objects(objs, a)[q],
    decreases b,
{
    if a < b {
        lemma_named_prefix(objs, a, (b - 1) as nat);
    }
}

} // verus!
