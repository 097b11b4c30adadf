//! Block types of a project that have no reading, and how often they occur.
//!
//! The blocks are looked for everywhere in a scripts document: in the
//! threads, under `statements` and under `params` of each block.

use vstd::prelude::*;

use crate::block::registry::{lemma_text_lt_irreflexive, lemma_text_lt_total, lemma_text_lt_transitive, text_less, text_lt};
use crate::deparse::{block_from_value, dec_block, lemma_assoc_smaller};
use crate::json::{assoc, jget, json_views, jstr, lemma_array_view, Json, JsonV};
use crate::text::str_is;
use crate::var::{VarMap, VarMapV};

verus! {

/// The type of `v` when `v` is a block that cannot be read.
pub open spec fn own_unmapped(v: JsonV, vm: VarMapV) -> Seq<Seq<char>> {
    match jstr(jget(v, "type"@)) {
        Some(t) => if dec_block(v, vm) is Err {
            seq![t]
        } else {
            seq![]
        },
        None => seq![],
    }
}

/// Types of the unreadable blocks inside `v`, in the order of a walk that
/// visits a block, then the blocks under its `statements`, then those under
/// its `params`.
pub open spec fn unmapped_types(v: JsonV, vm: VarMapV) -> Seq<Seq<char>>
    decreases v, 1int, 0int,
{
    match v {
        JsonV::Array(a) => unmapped_in(a, vm, a.len()),
        JsonV::Object(m) => {
            let under_statements = match assoc(m, "statements"@) {
                Some(JsonV::Array(s)) => {
                    proof {
                        lemma_assoc_smaller(m, "statements"@);
                        let x = JsonV::Array(s);
                        assert(decreases_to!(x => x->Array_0));
                    }
                    unmapped_in(s, vm, s.len())
                },
                _ => seq![],
            };
            let under_params = match assoc(m, "params"@) {
                Some(JsonV::Array(p)) => {
                    proof {
                        lemma_assoc_smaller(m, "params"@);
                        let x = JsonV::Array(p);
                        assert(decreases_to!(x => x->Array_0));
                    }
                    unmapped_in(p, vm, p.len())
                },
                _ => seq![],
            };
            own_unmapped(v, vm) + under_statements + under_params
        },
        _ => seq![],
    }
}

/// `unmapped_types` of the first `n` elements of `a`, one after the other.
pub open spec fn unmapped_in(a: Seq<JsonV>, vm: VarMapV, n: nat) -> Seq<Seq<char>>
    decreases a, 0int, n,
{
    if n == 0 || n > a.len() {
        seq![]
    } else {
        unmapped_in(a, vm, (n - 1) as nat) + unmapped_types(a[n - 1], vm)
    }
}

pub open spec fn text_views(v: Seq<String>) -> Seq<Seq<char>> {
    v.map_values(|s: String| s@)
}

/// Appends the unreadable blocks of the elements of `items`.
fn walk_items(items: &Vec<Json>, vars: &VarMap, out: &mut Vec<String>, Ghost(whole): Ghost<JsonV>)
    requires
        whole == JsonV::Array(json_views(items@)) || decreases_to!(whole => JsonV::Array(json_views(items@))),
    ensures
        text_views(final(out)@) == text_views(old(out)@) + unmapped_in(json_views(items@), vars@, items@.len()),
    decreases whole, 0int,
{
    let ghost a = json_views(items@);
    let ghost start = text_views(out@);
    let mut k: usize = 0;
    proof {
        let x = JsonV::Array(a);
        assert(decreases_to!(x => x->Array_0));
        assert(text_views(out@) =~= start + unmapped_in(a, vars@, 0));
    }
    while k < items.len()
        invariant
            k <= items.len(),
            a == json_views(items@),
            decreases_to!(whole => a),
            text_views(out@) == start + unmapped_in(a, vars@, k as nat),
        decreases items.len() - k,
    {
        proof {
            assert(decreases_to!(a => a[k as int]));
            assert(a[k as int] == items@[k as int]@);
        }
        walk_unmapped(&items[k], vars, out);
        proof {
            assert(text_views(out@) =~= start + unmapped_in(a, vars@, (k + 1) as nat));
        }
        k = k + 1;
    }
}

/// Appends the types of the unreadable blocks inside `v`.
fn walk_unmapped(v: &Json, vars: &VarMap, out: &mut Vec<String>)
    ensures
        text_views(final(out)@) == text_views(old(out)@) + unmapped_types(v@, vars@),
    decreases v@, 1int,
{
    match v {
        Json::Array(items) => {
            proof {
                lemma_array_view(*items);
            }
            walk_items(items, vars, out, Ghost(v@));
        },
        Json::Object(_) => {
            let ghost start = text_views(out@);
            let ghost m = v@->Object_0;
            proof {
                assert(v@ == JsonV::Object(m));
            }
            let own: Option<String> = match v.get("type") {
                Some(t) => match t.as_str() {
                    Some(name) => if block_from_value(v, vars).is_err() {
                        Some(name.to_owned())
                    } else {
                        None
                    },
                    None => None,
                },
                None => None,
            };
            match own {
                Some(t) => out.push(t),
                None => {},
            }
            proof {
                assert(text_views(out@) =~= start + own_unmapped(v@, vars@));
                lemma_assoc_smaller(m, "statements"@);
                lemma_assoc_smaller(m, "params"@);
            }
            let ghost mid = text_views(out@);
            match v.get("statements") {
                Some(s) => match s.as_array() {
                    Some(a) => {
                        proof {
                            lemma_array_view(*a);
                        }
                        walk_items(a, vars, out, Ghost(v@));
                    },
                    None => {},
                },
                None => {},
            }
            let ghost mid2 = text_views(out@);
            match v.get("params") {
                Some(p) => match p.as_array() {
                    Some(a) => {
                        proof {
                            lemma_array_view(*a);
                        }
                        walk_items(a, vars, out, Ghost(v@));
                    },
                    None => {},
                },
                None => {},
            }
            proof {
                assert(text_views(out@) =~= start + unmapped_types(v@, vars@));
            }
        },
        _ => {},
    }
}

/// Number of times `t` occurs in `ts`.
pub open spec fn type_count(ts: Seq<Seq<char>>, t: Seq<char>) -> nat
    decreases ts.len(),
{
    if ts.len() == 0 {
        0
    } else {
        type_count(ts.drop_last(), t) + if ts.last() == t {
            1nat
        } else {
            0nat
        }
    }
}

/// The distinct texts of `ts` in text order, each with its number of
/// occurrences.
pub open spec fn is_name_counts(r: Seq<(Seq<char>, nat)>, ts: Seq<Seq<char>>) -> bool {
    &&& forall|i: int, j: int| 0 <= i < j < r.len() ==> text_lt(#[trigger] r[i].0, #[trigger] r[j].0)
    &&& forall|i: int| 0 <= i < r.len() ==> type_count(ts, #[trigger] r[i].0) == r[i].1 && r[i].1 > 0
    &&& forall|k: int| 0 <= k < ts.len() ==> exists|i: int| 0 <= i < r.len() && #[trigger] r[i].0 == #[trigger] ts[k]
}

/// `a` is listed before `b`: the more frequent first, then in text order.
pub open spec fn ranked_before(a: (Seq<char>, nat), b: (Seq<char>, nat)) -> bool {
    a.1 > b.1 || (a.1 == b.1 && text_lt(a.0, b.0))
}

/// The distinct texts of `ts`, each with its number of occurrences, the
/// most frequent first and equally frequent ones in text order.
pub open spec fn is_type_counts(r: Seq<(Seq<char>, nat)>, ts: Seq<Seq<char>>) -> bool {
    &&& is_ranked(r)
    &&& forall|i: int| 0 <= i < r.len() ==> type_count(ts, #[trigger] r[i].0) == r[i].1 && r[i].1 > 0
    &&& forall|k: int| 0 <= k < ts.len() ==> exists|i: int| 0 <= i < r.len() && #[trigger] r[i].0 == #[trigger] ts[k]
}

pub open spec fn count_pairs(r: Seq<(String, usize)>) -> Seq<(Seq<char>, nat)> {
    r.map_values(|p: (String, usize)| (p.0@, p.1 as nat))
}

proof fn lemma_type_count_zero(ts: Seq<Seq<char>>, t: Seq<char>)
    requires
        forall|k: int| 0 <= k < ts.len() ==> ts[k] != t,
    ensures
        type_count(ts, t) == 0,
    decreases ts.len(),
{
    if ts.len() > 0 {
        lemma_type_count_zero(ts.drop_last(), t);
    }
}

proof fn lemma_type_count_bound(ts: Seq<Seq<char>>, t: Seq<char>)
    ensures
        type_count(ts, t) <= ts.len(),
    decreases ts.len(),
{
    if ts.len() > 0 {
        lemma_type_count_bound(ts.drop_last(), t);
    }
}

/// The distinct texts of `ts` in text order, each with its number of
/// occurrences.
fn count_names(ts: &Vec<String>) -> (r: Vec<(String, usize)>)
    ensures
        is_name_counts(count_pairs(r@), text_views(ts@)),
{
    let ghost vs = text_views(ts@);
    let mut out: Vec<(String, usize)> = Vec::new();
    let mut i: usize = 0;
    while i < ts.len()
        invariant
            i <= ts.len(),
            vs == text_views(ts@),
            is_name_counts(count_pairs(out@), vs.take(i as int)),
        decreases ts.len() - i,
    {
        let c = ts[i].as_str();
        let ghost before = vs.take(i as int);
        let ghost after = vs.take(i + 1);
        proof {
            assert(after.drop_last() =~= before);
            assert(after.last() == vs[i as int]);
            assert(vs[i as int] == c@);
            lemma_type_count_bound(before, c@);
        }
        let mut p: usize = 0;
        while p < out.len() && text_less(out[p].0.as_str(), c)
            invariant
                p <= out.len(),
                forall|q: int| 0 <= q < p ==> text_lt(#[trigger] out@[q].0@, c@),
            decreases out.len() - p,
        {
            p = p + 1;
        }
        let ghost old_out = count_pairs(out@);
        if p < out.len() && str_is(out[p].0.as_str(), c) {
            let cnt = out[p].1;
            let k = out[p].0.clone();
            proof {
                assert(old_out[p as int].0 == c@);
                assert(old_out[p as int].1 == type_count(before, c@));
            }
            out.set(p, (k, cnt + 1));
            proof {
                let nv = count_pairs(out@);
                assert forall|q: int| 0 <= q < nv.len() implies type_count(after, #[trigger] nv[q].0) == nv[q].1 && nv[q].1 > 0 by {
                    assert(nv[q] == if q == p { (old_out[q].0, old_out[q].1 + 1) } else { old_out[q] });
                    if q != p {
                        if q < p {
                            assert(text_lt(old_out[q].0, old_out[p as int].0));
                        } else {
                            assert(text_lt(old_out[p as int].0, old_out[q].0));
                        }
                        lemma_text_lt_irreflexive(c@);
                    }
                }
                assert forall|a: int, b: int| 0 <= a < b < nv.len() implies text_lt(#[trigger] nv[a].0, #[trigger] nv[b].0) by {
                    assert(nv[a].0 == old_out[a].0);
                    assert(nv[b].0 == old_out[b].0);
                }
                assert forall|k2: int| 0 <= k2 < after.len() implies exists|q: int| 0 <= q < nv.len() && #[trigger] nv[q].0 == #[trigger] after[k2] by {
                    if k2 < before.len() {
                        assert(after[k2] == before[k2]);
                        let q = choose|q: int| 0 <= q < old_out.len() && #[trigger] old_out[q].0 == #[trigger] before[k2];
                        assert(nv[q].0 == old_out[q].0);
                    } else {
                        assert(nv[p as int].0 == after[k2]);
                    }
                }
            }
        } else {
            proof {
                assert forall|q: int| 0 <= q < old_out.len() implies old_out[q].0 != c@ by {
                    if q < p {
                        lemma_text_lt_irreflexive(c@);
                    } else if q > p {
                        assert(text_lt(old_out[p as int].0, old_out[q].0));
                        if old_out[q].0 == c@ {
                            lemma_text_lt_total(old_out[p as int].0, c@);
                            lemma_text_lt_transitive(c@, old_out[p as int].0, c@);
                            lemma_text_lt_irreflexive(c@);
                        }
                    }
                }
                assert forall|k2: int| 0 <= k2 < before.len() implies before[k2] != c@ by {
                    let q = choose|q: int| 0 <= q < old_out.len() && #[trigger] old_out[q].0 == #[trigger] before[k2];
                }
                lemma_type_count_zero(before, c@);
            }
            out.insert(p, (c.to_owned(), 1));
            proof {
                let nv = count_pairs(out@);
                assert(nv.len() == old_out.len() + 1);
                assert forall|q: int| 0 <= q < nv.len() implies #[trigger] nv[q] == if q < p {
                    old_out[q]
                } else if q == p {
                    (c@, 1nat)
                } else {
                    old_out[q - 1]
                } by {}
                if p < old_out.len() {
                    lemma_text_lt_total(old_out[p as int].0, c@);
                }
                assert forall|a: int, b: int| 0 <= a < b < nv.len() implies text_lt(#[trigger] nv[a].0, #[trigger] nv[b].0) by {
                    if a < p && b == p {
                    } else if a < p && b > p {
                        assert(text_lt(old_out[a].0, old_out[b - 1].0));
                    } else if a == p && b > p {
                        if b - 1 > p {
                            assert(text_lt(old_out[p as int].0, old_out[b - 1].0));
                            lemma_text_lt_transitive(c@, old_out[p as int].0, old_out[b - 1].0);
                        }
                    } else if a > p {
                        assert(text_lt(old_out[a - 1].0, old_out[b - 1].0));
                    } else {
                        assert(text_lt(old_out[a].0, old_out[b].0));
                    }
                }
                assert forall|q: int| 0 <= q < nv.len() implies type_count(after, #[trigger] nv[q].0) == nv[q].1 && nv[q].1 > 0 by {
                    if q != p {
                        let oq = if q < p { q } else { q - 1 };
                        assert(nv[q] == old_out[oq]);
                    }
                }
                assert forall|k2: int| 0 <= k2 < after.len() implies exists|q: int| 0 <= q < nv.len() && #[trigger] nv[q].0 == #[trigger] after[k2] by {
                    if k2 < before.len() {
                        assert(after[k2] == before[k2]);
                        let q = choose|q: int| 0 <= q < old_out.len() && #[trigger] old_out[q].0 == #[trigger] before[k2];
                        let nq = if q < p { q } else { q + 1 };
                        assert(nv[nq].0 == old_out[q].0);
                    } else {
                        assert(nv[p as int].0 == after[k2]);
                    }
                }
            }
        }
        i = i + 1;
    }
    proof {
        assert(vs.take(i as int) =~= vs);
    }
    out
}

proof fn lemma_ranked_transitive(a: (Seq<char>, nat), b: (Seq<char>, nat), c: (Seq<char>, nat))
    requires
        ranked_before(a, b),
        ranked_before(b, c),
    ensures
        ranked_before(a, c),
{
    if a.1 == b.1 && b.1 == c.1 {
        lemma_text_lt_transitive(a.0, b.0, c.0);
    }
}

proof fn lemma_ranked_total(a: (Seq<char>, nat), b: (Seq<char>, nat))
    requires
        a.0 != b.0,
    ensures
        ranked_before(a, b) || ranked_before(b, a),
{
    lemma_text_lt_total(a.0, b.0);
}

fn ranked_less(a: &(String, usize), b: &(String, usize)) -> (r: bool)
    ensures
        r == ranked_before((a.0@, a.1 as nat), (b.0@, b.1 as nat)),
{
    a.1 > b.1 || (a.1 == b.1 && text_less(a.0.as_str(), b.0.as_str()))
}

/// Inserting `ev` at `p` into a ranked list keeps it ranked, when every
/// entry before `p` comes before `ev` and `ev` comes before the entry at `p`.
proof fn lemma_insert_ranked(ov: Seq<(Seq<char>, nat)>, ev: (Seq<char>, nat), p: int)
    requires
        0 <= p <= ov.len(),
        is_ranked(ov),
        forall|q: int| 0 <= q < p ==> ranked_before(#[trigger] ov[q], ev),
        p < ov.len() ==> ranked_before(ev, ov[p]),
    ensures
        is_ranked(ov.insert(p, ev)),
{
    let nv = ov.insert(p, ev);
    assert forall|q: int| 0 <= q < nv.len() implies #[trigger] nv[q] == if q < p {
        ov[q]
    } else if q == p {
        ev
    } else {
        ov[q - 1]
    } by {}
    assert forall|a: int, b: int| 0 <= a < b < nv.len() implies ranked_before(#[trigger] nv[a], #[trigger] nv[b]) by {
        if a < p && b == p {
        } else if a < p && b > p {
            assert(ranked_before(ov[a], ov[b - 1]));
        } else if a == p && b > p {
            if b - 1 > p {
                assert(ranked_before(ov[p], ov[b - 1]));
                lemma_ranked_transitive(ev, ov[p], ov[b - 1]);
            }
        } else if a > p {
            assert(ranked_before(ov[a - 1], ov[b - 1]));
        } else {
            assert(ranked_before(ov[a], ov[b]));
        }
    }
}

/// `x` is one of the first `k` entries of `c`.
pub open spec fn among(c: Seq<(Seq<char>, nat)>, k: int, x: (Seq<char>, nat)) -> bool {
    exists|j: int| 0 <= j < k && c[j] == x
}

/// `x` is an entry of `r`.
pub open spec fn listed(r: Seq<(Seq<char>, nat)>, x: (Seq<char>, nat)) -> bool {
    exists|i: int| 0 <= i < r.len() && r[i] == x
}

/// Every entry of `r` is one of the first `k` entries of `c`, and each of
/// those is in `r`.
#[verifier::opaque]
pub open spec fn same_entries(r: Seq<(Seq<char>, nat)>, c: Seq<(Seq<char>, nat)>, k: int) -> bool {
    &&& forall|i: int| 0 <= i < r.len() ==> #[trigger] among(c, k, r[i])
    &&& forall|j: int| 0 <= j < k ==> #[trigger] listed(r, c[j])
}

/// Inserting `cv[k]` into a list with the first `k` entries of `cv` gives
/// one with the first `k + 1`.
proof fn lemma_insert_same_entries(ov: Seq<(Seq<char>, nat)>, cv: Seq<(Seq<char>, nat)>, k: int, p: int)
    requires
        0 <= k < cv.len(),
        0 <= p <= ov.len(),
        same_entries(ov, cv, k),
    ensures
        same_entries(ov.insert(p, cv[k]), cv, k + 1),
{
    reveal(same_entries);
    let nv = ov.insert(p, cv[k]);
    assert forall|i: int| 0 <= i < nv.len() implies #[trigger] among(cv, k + 1, nv[i]) by {
        if i < p {
            assert(among(cv, k, ov[i]));
            let j = choose|j: int| 0 <= j < k && cv[j] == ov[i];
            assert(nv[i] == cv[j]);
        } else if i == p {
            assert(nv[i] == cv[k]);
        } else {
            assert(among(cv, k, ov[i - 1]));
            let j = choose|j: int| 0 <= j < k && cv[j] == ov[i - 1];
            assert(nv[i] == cv[j]);
        }
    }
    assert forall|j: int| 0 <= j < k + 1 implies #[trigger] listed(nv, cv[j]) by {
        if j < k {
            assert(listed(ov, cv[j]));
            let i = choose|i: int| 0 <= i < ov.len() && ov[i] == cv[j];
            let ni = if i < p { i } else { i + 1 };
            assert(nv[ni] == cv[j]);
        } else {
            assert(nv[p] == cv[j]);
        }
    }
}
/// Entries in ranked order.
pub open spec fn is_ranked(s: Seq<(Seq<char>, nat)>) -> bool {
    forall|i: int, j: int| 0 <= i < j < s.len() ==> ranked_before(#[trigger] s[i], #[trigger] s[j])
}

/// Inserts `e` into a ranked list at its place.
fn insert_ranked(out: &mut Vec<(String, usize)>, e: (String, usize))
    requires
        is_ranked(count_pairs(old(out)@)),
        forall|q: int| 0 <= q < old(out)@.len() ==> #[trigger] count_pairs(old(out)@)[q].0 != e.0@,
    ensures
        final(out)@.len() == old(out)@.len() + 1,
        is_ranked(count_pairs(final(out)@)),
        exists|p: int| 0 <= p <= old(out)@.len() && count_pairs(final(out)@) == count_pairs(old(out)@).insert(p, (e.0@, e.1 as nat)),
{
    let ghost ov = count_pairs(out@);
    let ghost ev = (e.0@, e.1 as nat);
    let mut p: usize = 0;
    while p < out.len() && ranked_less(&out[p], &e)
        invariant
            p <= ov.len(),
            ov == count_pairs(out@),
            ev == (e.0@, e.1 as nat),
            forall|q: int| 0 <= q < p ==> ranked_before(#[trigger] ov[q], ev),
        decreases ov.len() - p,
    {
        assert(ov[p as int] == (out@[p as int].0@, out@[p as int].1 as nat));
        p = p + 1;
    }
    proof {
        if p < ov.len() {
            assert(ov[p as int] == (out@[p as int].0@, out@[p as int].1 as nat));
            assert(ov[p as int].0 != ev.0);
            lemma_ranked_total(ov[p as int], ev);
        }
        lemma_insert_ranked(ov, ev, p as int);
    }
    out.insert(p, e);
    proof {
        assert(count_pairs(out@) =~= ov.insert(p as int, ev));
    }
}

/// The name of `cv[k]` is none of those of a list with the first `k`
/// entries of `cv`, when the names of `cv` are in strict text order.
proof fn lemma_next_name_absent(ov: Seq<(Seq<char>, nat)>, cv: Seq<(Seq<char>, nat)>, k: int)
    requires
        0 <= k < cv.len(),
        same_entries(ov, cv, k),
        forall|i: int, j: int| 0 <= i < j < cv.len() ==> text_lt(#[trigger] cv[i].0, #[trigger] cv[j].0),
    ensures
        forall|q: int| 0 <= q < ov.len() ==> #[trigger] ov[q].0 != cv[k].0,
{
    reveal(same_entries);
    assert forall|q: int| 0 <= q < ov.len() implies #[trigger] ov[q].0 != cv[k].0 by {
        assert(among(cv, k, ov[q]));
        let j = choose|j: int| 0 <= j < k && cv[j] == ov[q];
        assert(text_lt(cv[j].0, cv[k].0));
        lemma_text_lt_irreflexive(cv[k].0);
    }
}
/// The entries of `c`, the most frequent first and equally frequent ones in
/// text order.
fn rank(c: &Vec<(String, usize)>) -> (r: Vec<(String, usize)>)
    requires
        forall|i: int, j: int| 0 <= i < j < c@.len() ==> text_lt(#[trigger] count_pairs(c@)[i].0, #[trigger] count_pairs(c@)[j].0),
    ensures
        r@.len() == c@.len(),
        is_ranked(count_pairs(r@)),
        same_entries(count_pairs(r@), count_pairs(c@), c@.len() as int),
{
    let ghost cv = count_pairs(c@);
    let mut out: Vec<(String, usize)> = Vec::new();
    let mut k: usize = 0;
    proof {
        reveal(same_entries);
        assert(count_pairs(out@) =~= Seq::empty());
    }
    while k < c.len()
        invariant
            k <= c@.len(),
            cv == count_pairs(c@),
            forall|i: int, j: int| 0 <= i < j < cv.len() ==> text_lt(#[trigger] cv[i].0, #[trigger] cv[j].0),
            out@.len() == k,
            is_ranked(count_pairs(out@)),
            same_entries(count_pairs(out@), cv, k as int),
        decreases c@.len() - k,
    {
        let ghost ov = count_pairs(out@);
        let e = (c[k].0.clone(), c[k].1);
        proof {
            assert((e.0@, e.1 as nat) == cv[k as int]);
            lemma_next_name_absent(ov, cv, k as int);
        }
        insert_ranked(&mut out, e);
        proof {
            let p = choose|p: int| 0 <= p <= ov.len() && count_pairs(out@) == ov.insert(p, cv[k as int]);
            lemma_insert_same_entries(ov, cv, k as int, p);
        }
        k = k + 1;
    }
    out
}

/// Types of the blocks of `scripts` (a document of threads) that cannot be
/// read, each with its number of occurrences, the most frequent first and
/// equally frequent ones in text order. Blocks are looked for in threads,
/// under `statements` and under `params`.
pub fn collect_unmapped_blocks(scripts: &Json, vars: &VarMap) -> (r: Vec<(String, usize)>)
    ensures
        is_type_counts(count_pairs(r@), unmapped_types(scripts@, vars@)),
{
    let mut found: Vec<String> = Vec::new();
    walk_unmapped(scripts, vars, &mut found);
    proof {
        assert(text_views(found@) =~= Seq::<Seq<char>>::empty() + unmapped_types(scripts@, vars@));
    }
    let counts = count_names(&found);
    let ranked = rank(&counts);
    proof {
        reveal(same_entries);
        let ts = unmapped_types(scripts@, vars@);
        assert(text_views(found@) == ts);
        let cv = count_pairs(counts@);
        let rv = count_pairs(ranked@);
        assert forall|i: int| 0 <= i < rv.len() implies type_count(ts, #[trigger] rv[i].0) == rv[i].1 && rv[i].1 > 0 by {
            assert(among(cv, cv.len() as int, rv[i]));
            let j = choose|j: int| 0 <= j < cv.len() && cv[j] == rv[i];
        }
        assert forall|k: int| 0 <= k < ts.len() implies exists|i: int| 0 <= i < rv.len() && #[trigger] rv[i].0 == #[trigger] ts[k] by {
            let j = choose|j: int| 0 <= j < cv.len() && #[trigger] cv[j].0 == #[trigger] ts[k];
            assert(listed(rv, cv[j]));
            let i = choose|i: int| 0 <= i < rv.len() && rv[i] == cv[j];
            assert(rv[i].0 == ts[k]);
        }
    }
    ranked
}

} // verus!
