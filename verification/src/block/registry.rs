//! Block registry and the structural check of a block-schema dump.
//!
//! A schema dump lists every block definition of the editor, grouped by the
//! source file that defines it. One generic pass over all of them checks five
//! structural invariants, so the cost grows with the number of blocks and no
//! test has to be written per block.

use vstd::prelude::*;
use crate::block::Block;
use crate::block::lower::{from_stmt, low_stmt};
use crate::deparse::agrees;
use crate::ir::Stmt;
use crate::text::{push_str, str_is, usize_string, dec_text, char_at, char_len, owned};

verus! {

/// Root of a schema dump.
#[derive(Debug)]
pub struct SchemaDump {
    pub generated: String,
    pub source: String,
    pub total: usize,
    pub group_count: usize,
    pub groups: Vec<SchemaGroup>,
}

/// One source file of the editor and the blocks it defines, by block id,
/// in the order of the dump.
#[derive(Debug)]
pub struct SchemaGroup {
    pub group: String,
    pub file: String,
    pub count: usize,
    pub blocks: Vec<(String, BlockSchema)>,
}

impl SchemaGroup {
    /// No block id occurs twice (the dump keys its blocks by id).
    pub open spec fn ids_distinct(&self) -> bool {
        forall|i: int, j: int| 0 <= i < j < self.blocks@.len() ==> (#[trigger] self.blocks@[i]).0@ != (#[trigger] self.blocks@[j]).0@
    }
}

impl SchemaDump {
    /// Every group keys its blocks by distinct ids.
    pub open spec fn well_formed(&self) -> bool {
        forall|k: int| 0 <= k < self.groups@.len() ==> (#[trigger] self.groups@[k]).ids_distinct()
    }
}

/// The schema fields of one block definition.
#[derive(Debug)]
pub struct BlockSchema {
    pub skeleton: Option<String>,
    pub color: Option<String>,
    pub outer_line: Option<String>,
    pub def_type: Option<String>,
    pub has_func: bool,
    pub class: Option<String>,
    /// The type of each parameter; `None` for a parameter without a type.
    pub params: Option<Vec<Option<String>>>,
    pub param_count: usize,
}

/// Check name: the skeleton is present and not empty.
pub const CHECK_SKELETON_PRESENT: &'static str = "skeleton_present";

/// Check name: the definition's type equals the block id.
pub const CHECK_DEF_TYPE_MATCH: &'static str = "def_type_match";

/// Check name: the parameter list is as long as the parameter count.
pub const CHECK_PARAMS_CONSISTENT: &'static str = "params_consistent";

/// Check name: every parameter has a type.
pub const CHECK_PARAMS_TYPED: &'static str = "params_typed";

/// Check name: an executable skeleton has a function.
pub const CHECK_FUNC_EXPECTED: &'static str = "func_expected";

/// One broken invariant of one block.
#[derive(Debug, Clone)]
pub struct Violation {
    pub group: String,
    pub file: String,
    pub block: String,
    pub check: &'static str,
    pub detail: String,
}

/// Model of a violation.
pub struct ViolationV {
    pub group: Seq<char>,
    pub file: Seq<char>,
    pub block: Seq<char>,
    pub check: Seq<char>,
    pub detail: Seq<char>,
}

impl View for Violation {
    type V = ViolationV;

    open spec fn view(&self) -> ViolationV {
        ViolationV {
            group: self.group@,
            file: self.file@,
            block: self.block@,
            check: self.check@,
            detail: self.detail@,
        }
    }
}

/// Outcome of checking a whole dump.
#[derive(Debug, Clone)]
pub struct SchemaReport {
    pub total_blocks: usize,
    pub violations: Vec<Violation>,
}

// ---------------------------------------------------------------------------
// Model of the check
// ---------------------------------------------------------------------------

pub open spec fn violation(g: &SchemaGroup, id: Seq<char>, check: Seq<char>, detail: Seq<char>) -> ViolationV {
    ViolationV { group: g.group@, file: g.file@, block: id, check, detail }
}

/// The skeletons of pure labels and buttons, which run nothing.
pub open spec fn non_executable(s: Seq<char>) -> bool {
    s == "basic_text"@ || s == "basic_button"@
}

pub open spec fn skeleton_violations(g: &SchemaGroup, id: Seq<char>, b: &BlockSchema) -> Seq<ViolationV> {
    match &b.skeleton {
        Some(s) => if s@.len() > 0 {
            Seq::empty()
        } else {
            seq![violation(g, id, CHECK_SKELETON_PRESENT@, "skeleton missing or empty: Some(\"\")"@)]
        },
        None => seq![violation(g, id, CHECK_SKELETON_PRESENT@, "skeleton missing or empty: None"@)],
    }
}

pub open spec fn def_type_violations(g: &SchemaGroup, id: Seq<char>, b: &BlockSchema) -> Seq<ViolationV> {
    match &b.def_type {
        Some(dt) => if dt@ == id {
            Seq::empty()
        } else {
            seq![violation(g, id, CHECK_DEF_TYPE_MATCH@,
                "def.type='"@ + dt@ + "' != block id '"@ + id + "'"@)]
        },
        None => Seq::empty(),
    }
}

/// The `params_typed` violations of the first `n` parameters.
pub open spec fn untyped_violations(g: &SchemaGroup, id: Seq<char>, ps: Seq<Option<String>>, n: nat) -> Seq<ViolationV>
    decreases n,
{
    if n == 0 {
        Seq::empty()
    } else {
        let k = (n - 1) as nat;
        untyped_violations(g, id, ps, k) + if ps[k as int] is None {
            seq![violation(g, id, CHECK_PARAMS_TYPED@, "param["@ + dec_text(k) + "] has no type"@)]
        } else {
            Seq::empty()
        }
    }
}

pub open spec fn params_violations(g: &SchemaGroup, id: Seq<char>, b: &BlockSchema) -> Seq<ViolationV> {
    match &b.params {
        Some(ps) => (if ps.len() == b.param_count {
            Seq::empty()
        } else {
            seq![violation(g, id, CHECK_PARAMS_CONSISTENT@,
                "params len "@ + dec_text(ps.len() as nat) + " != paramCount "@ + dec_text(b.param_count as nat))]
        }) + untyped_violations(g, id, ps@, ps.len() as nat),
        None => Seq::empty(),
    }
}

pub open spec fn func_violations(g: &SchemaGroup, id: Seq<char>, b: &BlockSchema) -> Seq<ViolationV> {
    match &b.skeleton {
        Some(s) => if !non_executable(s@) && !b.has_func {
            seq![violation(g, id, CHECK_FUNC_EXPECTED@, "executable skeleton '"@ + s@ + "' missing func"@)]
        } else {
            Seq::empty()
        },
        None => Seq::empty(),
    }
}

/// All violations of one block, in the order of the five checks.
pub open spec fn block_violations(g: &SchemaGroup, id: Seq<char>, b: &BlockSchema) -> Seq<ViolationV> {
    skeleton_violations(g, id, b) + def_type_violations(g, id, b) + params_violations(g, id, b)
        + func_violations(g, id, b)
}

/// Violations of the first `n` blocks of a group.
pub open spec fn group_violations(g: &SchemaGroup, n: nat) -> Seq<ViolationV>
    decreases n,
{
    if n == 0 {
        Seq::empty()
    } else {
        let k = (n - 1) as int;
        group_violations(g, (n - 1) as nat) + block_violations(g, g.blocks@[k].0@, &g.blocks@[k].1)
    }
}

/// Violations of the first `n` groups of a dump.
pub open spec fn dump_violations(gs: Seq<SchemaGroup>, n: nat) -> Seq<ViolationV>
    decreases n,
{
    if n == 0 {
        Seq::empty()
    } else {
        let k = (n - 1) as int;
        dump_violations(gs, (n - 1) as nat) + group_violations(&gs[k], gs[k].blocks@.len())
    }
}

/// Number of blocks in the first `n` groups.
pub open spec fn block_total(gs: Seq<SchemaGroup>, n: nat) -> nat
    decreases n,
{
    if n == 0 {
        0
    } else {
        block_total(gs, (n - 1) as nat) + gs[n - 1].blocks@.len()
    }
}

pub open spec fn violation_views(vs: Seq<Violation>) -> Seq<ViolationV> {
    vs.map_values(|v: Violation| v@)
}

/// Number of violations of the check `c`.
pub open spec fn check_count(vs: Seq<ViolationV>, c: Seq<char>) -> nat
    decreases vs.len(),
{
    if vs.len() == 0 {
        0
    } else {
        check_count(vs.drop_last(), c) + if vs.last().check == c { 1nat } else { 0nat }
    }
}

/// Lexicographic order of texts by character code.
pub open spec fn text_lt(a: Seq<char>, b: Seq<char>) -> bool
    decreases a.len(),
{
    if a.len() == 0 {
        b.len() > 0
    } else if b.len() == 0 {
        false
    } else if a[0] != b[0] {
        (a[0] as int) < (b[0] as int)
    } else {
        text_lt(a.drop_first(), b.drop_first())
    }
}

pub proof fn lemma_text_lt_irreflexive(a: Seq<char>)
    ensures
        !text_lt(a, a),
    decreases a.len(),
{
    if a.len() > 0 {
        lemma_text_lt_irreflexive(a.drop_first());
    }
}

pub proof fn lemma_text_lt_total(a: Seq<char>, b: Seq<char>)
    ensures
        a == b || text_lt(a, b) || text_lt(b, a),
    decreases a.len(),
{
    if a.len() > 0 && b.len() > 0 && a[0] == b[0] {
        lemma_text_lt_total(a.drop_first(), b.drop_first());
        if a.drop_first() == b.drop_first() {
            assert(a =~= seq![a[0]] + a.drop_first());
            assert(b =~= seq![b[0]] + b.drop_first());
        }
    } else if a.len() > 0 && b.len() > 0 {
        assert((a[0] as int) != (b[0] as int));
    } else if a.len() == 0 && b.len() == 0 {
        assert(a =~= b);
    }
}

pub proof fn lemma_text_lt_transitive(a: Seq<char>, b: Seq<char>, c: Seq<char>)
    requires
        text_lt(a, b),
        text_lt(b, c),
    ensures
        text_lt(a, c),
    decreases a.len(),
{
    if a.len() > 0 && b.len() > 0 && c.len() > 0 && a[0] == b[0] && b[0] == c[0] {
        lemma_text_lt_transitive(a.drop_first(), b.drop_first(), c.drop_first());
    }
}

/// The distinct checks of a list of violations, in text order, each with its
/// number of violations.
pub open spec fn is_check_counts(r: Seq<(Seq<char>, nat)>, vs: Seq<ViolationV>) -> bool {
    &&& forall|i: int, j: int| 0 <= i < j < r.len() ==> text_lt(#[trigger] r[i].0, #[trigger] r[j].0)
    &&& forall|i: int| 0 <= i < r.len() ==> check_count(vs, #[trigger] r[i].0) == r[i].1 && r[i].1 > 0
    &&& forall|k: int| 0 <= k < vs.len() ==> exists|i: int| 0 <= i < r.len() && #[trigger] r[i].0 == #[trigger] vs[k].check
}

/// A block definition that breaks none of the five invariants.
pub open spec fn block_sound(id: Seq<char>, b: &BlockSchema) -> bool {
    &&& b.skeleton matches Some(sk) && sk@.len() > 0 && (non_executable(sk@) || b.has_func)
    &&& b.def_type matches Some(dt) ==> dt@ == id
    &&& b.params matches Some(ps) ==> ps.len() == b.param_count && forall|i: int| 0 <= i < ps@.len() ==> ps@[i] is Some
}

/// Every block of the first `n` groups is sound.
pub open spec fn groups_sound(gs: Seq<SchemaGroup>, n: nat) -> bool {
    forall|k: int, j: int| 0 <= k < n && 0 <= j < gs[k].blocks@.len() ==> block_sound(gs[k].blocks@[j].0@, &#[trigger] gs[k].blocks@[j].1)
}

/// The names of the five checks.
pub open spec fn is_check_name(c: Seq<char>) -> bool {
    c == CHECK_SKELETON_PRESENT@ || c == CHECK_DEF_TYPE_MATCH@ || c == CHECK_PARAMS_CONSISTENT@ || c == CHECK_PARAMS_TYPED@
        || c == CHECK_FUNC_EXPECTED@
}

proof fn lemma_untyped(g: &SchemaGroup, id: Seq<char>, ps: Seq<Option<String>>, n: nat)
    requires
        n <= ps.len(),
    ensures
        (untyped_violations(g, id, ps, n).len() == 0) == (forall|i: int| 0 <= i < n ==> ps[i] is Some),
        forall|v: int| 0 <= v < untyped_violations(g, id, ps, n).len() ==> (#[trigger] untyped_violations(g, id, ps, n)[v]).check
            == CHECK_PARAMS_TYPED@,
    decreases n,
{
    if n > 0 {
        lemma_untyped(g, id, ps, (n - 1) as nat);
        let prev = untyped_violations(g, id, ps, (n - 1) as nat);
        let cur = untyped_violations(g, id, ps, n);
        assert forall|v: int| 0 <= v < cur.len() implies (#[trigger] cur[v]).check == CHECK_PARAMS_TYPED@ by {
            if v < prev.len() {
                assert(cur[v] == prev[v]);
            }
        }
    }
}

proof fn lemma_block_clean(g: &SchemaGroup, id: Seq<char>, b: &BlockSchema)
    ensures
        (block_violations(g, id, b).len() == 0) == block_sound(id, b),
        forall|v: int| 0 <= v < block_violations(g, id, b).len() ==> is_check_name((#[trigger] block_violations(g, id, b)[v]).check),
{
    if let Some(ps) = &b.params {
        lemma_untyped(g, id, ps@, ps.len() as nat);
    }
    let a1 = skeleton_violations(g, id, b);
    let a2 = def_type_violations(g, id, b);
    let a3 = params_violations(g, id, b);
    let a4 = func_violations(g, id, b);
    let all = block_violations(g, id, b);
    assert(all == a1 + a2 + a3 + a4);
    assert forall|v: int| 0 <= v < all.len() implies is_check_name((#[trigger] all[v]).check) by {
        if v < a1.len() {
            assert(all[v] == a1[v]);
        } else if v < a1.len() + a2.len() {
            assert(all[v] == a2[v - a1.len()]);
        } else if v < a1.len() + a2.len() + a3.len() {
            assert(all[v] == a3[v - a1.len() - a2.len()]);
            if let Some(ps) = &b.params {
                let c = if ps.len() == b.param_count { Seq::<ViolationV>::empty() } else {
                    seq![violation(g, id, CHECK_PARAMS_CONSISTENT@,
                        "params len "@ + dec_text(ps.len() as nat) + " != paramCount "@ + dec_text(b.param_count as nat))]
                };
                let q = v - a1.len() - a2.len();
                if q >= c.len() {
                    assert(a3[q] == untyped_violations(g, id, ps@, ps.len() as nat)[q - c.len()]);
                }
            }
        } else {
            assert(all[v] == a4[v - a1.len() - a2.len() - a3.len()]);
        }
    }
}

proof fn lemma_group_clean(g: &SchemaGroup, n: nat)
    requires
        n <= g.blocks@.len(),
    ensures
        (group_violations(g, n).len() == 0) == (forall|j: int| 0 <= j < n ==> block_sound(g.blocks@[j].0@, &#[trigger] g.blocks@[j].1)),
        forall|v: int| 0 <= v < group_violations(g, n).len() ==> is_check_name((#[trigger] group_violations(g, n)[v]).check),
    decreases n,
{
    if n > 0 {
        lemma_group_clean(g, (n - 1) as nat);
        let k = (n - 1) as int;
        lemma_block_clean(g, g.blocks@[k].0@, &g.blocks@[k].1);
        let prev = group_violations(g, (n - 1) as nat);
        let bv = block_violations(g, g.blocks@[k].0@, &g.blocks@[k].1);
        let cur = group_violations(g, n);
        assert forall|v: int| 0 <= v < cur.len() implies is_check_name((#[trigger] cur[v]).check) by {
            if v < prev.len() {
                assert(cur[v] == prev[v]);
            } else {
                assert(cur[v] == bv[v - prev.len()]);
            }
        }
    }
}

proof fn lemma_dump_clean(gs: Seq<SchemaGroup>, n: nat)
    requires
        n <= gs.len(),
    ensures
        (dump_violations(gs, n).len() == 0) == groups_sound(gs, n),
        forall|v: int| 0 <= v < dump_violations(gs, n).len() ==> is_check_name((#[trigger] dump_violations(gs, n)[v]).check),
    decreases n,
{
    if n > 0 {
        lemma_dump_clean(gs, (n - 1) as nat);
        let k = (n - 1) as int;
        lemma_group_clean(&gs[k], gs[k].blocks@.len());
        let prev = dump_violations(gs, (n - 1) as nat);
        let gv = group_violations(&gs[k], gs[k].blocks@.len());
        let cur = dump_violations(gs, n);
        assert forall|v: int| 0 <= v < cur.len() implies is_check_name((#[trigger] cur[v]).check) by {
            if v < prev.len() {
                assert(cur[v] == prev[v]);
            } else {
                assert(cur[v] == gv[v - prev.len()]);
            }
        }
        if groups_sound(gs, n) {
            assert(groups_sound(gs, (n - 1) as nat));
        }
    }
}

/// A dump checks clean exactly when every block definition has a non-empty
/// skeleton, a definition type equal to its id (when it has one), a
/// parameter list of the declared length with a type for each entry (when
/// it has one), and a function unless it is a label or a button; every
/// violation names one of the five checks.
pub proof fn law_clean_iff_sound(gs: Seq<SchemaGroup>)
    ensures
        (dump_violations(gs, gs.len()).len() == 0) == groups_sound(gs, gs.len()),
        forall|v: int| 0 <= v < dump_violations(gs, gs.len()).len() ==> is_check_name(
            (#[trigger] dump_violations(gs, gs.len())[v]).check,
        ),
{
    lemma_dump_clean(gs, gs.len());
}

proof fn lemma_check_count_some(vs: Seq<ViolationV>, c: Seq<char>, k: int)
    requires
        0 <= k < vs.len(),
        vs[k].check == c,
    ensures
        check_count(vs, c) > 0,
    decreases vs.len(),
{
    if k < vs.len() - 1 {
        lemma_check_count_some(vs.drop_last(), c, k);
    }
}

/// The number of violations of a check is at most the number of
/// violations, and it is zero exactly when no violation is of that check.
pub proof fn law_count_by_check_range(vs: Seq<ViolationV>, c: Seq<char>)
    ensures
        check_count(vs, c) <= vs.len(),
        (check_count(vs, c) == 0) == (forall|k: int| 0 <= k < vs.len() ==> (#[trigger] vs[k]).check != c),
{
    lemma_check_count_bound(vs, c);
    if forall|k: int| 0 <= k < vs.len() ==> (#[trigger] vs[k]).check != c {
        lemma_check_count_zero(vs, c);
    } else {
        let k = choose|k: int| 0 <= k < vs.len() && !((#[trigger] vs[k]).check != c);
        lemma_check_count_some(vs, c, k);
    }
}

/// The counts of the five checks.
pub open spec fn five_counts(vs: Seq<ViolationV>) -> nat {
    check_count(vs, CHECK_SKELETON_PRESENT@) + check_count(vs, CHECK_DEF_TYPE_MATCH@) + check_count(vs, CHECK_PARAMS_CONSISTENT@)
        + check_count(vs, CHECK_PARAMS_TYPED@) + check_count(vs, CHECK_FUNC_EXPECTED@)
}

/// When every violation names one of the five checks (as those of a
/// checked dump do), the counts of the five checks add up to the number of
/// violations.
pub proof fn law_five_counts_sum(vs: Seq<ViolationV>)
    requires
        forall|k: int| 0 <= k < vs.len() ==> is_check_name((#[trigger] vs[k]).check),
    ensures
        five_counts(vs) == vs.len(),
    decreases vs.len(),
{
    reveal_strlit("skeleton_present");
    reveal_strlit("def_type_match");
    reveal_strlit("params_consistent");
    reveal_strlit("params_typed");
    reveal_strlit("func_expected");
    assert(CHECK_SKELETON_PRESENT@ != CHECK_DEF_TYPE_MATCH@ && CHECK_SKELETON_PRESENT@ != CHECK_PARAMS_CONSISTENT@
        && CHECK_SKELETON_PRESENT@ != CHECK_PARAMS_TYPED@ && CHECK_SKELETON_PRESENT@ != CHECK_FUNC_EXPECTED@) by {
        assert(CHECK_SKELETON_PRESENT@[0] == 's');
        assert(CHECK_DEF_TYPE_MATCH@[0] == 'd');
        assert(CHECK_PARAMS_CONSISTENT@[0] == 'p');
        assert(CHECK_FUNC_EXPECTED@[0] == 'f');
    }
    assert(CHECK_DEF_TYPE_MATCH@ != CHECK_PARAMS_CONSISTENT@ && CHECK_DEF_TYPE_MATCH@ != CHECK_PARAMS_TYPED@
        && CHECK_DEF_TYPE_MATCH@ != CHECK_FUNC_EXPECTED@ && CHECK_PARAMS_CONSISTENT@ != CHECK_FUNC_EXPECTED@
        && CHECK_PARAMS_TYPED@ != CHECK_FUNC_EXPECTED@) by {
        assert(CHECK_DEF_TYPE_MATCH@[0] == 'd');
        assert(CHECK_PARAMS_CONSISTENT@[0] == 'p');
        assert(CHECK_PARAMS_TYPED@[0] == 'p');
        assert(CHECK_FUNC_EXPECTED@[0] == 'f');
    }
    assert(CHECK_PARAMS_CONSISTENT@ != CHECK_PARAMS_TYPED@) by {
        assert(CHECK_PARAMS_CONSISTENT@.len() != CHECK_PARAMS_TYPED@.len());
    }
    if vs.len() > 0 {
        assert forall|k: int| 0 <= k < vs.drop_last().len() implies is_check_name((#[trigger] vs.drop_last()[k]).check) by {
            assert(vs.drop_last()[k] == vs[k]);
        }
        law_five_counts_sum(vs.drop_last());
        assert(is_check_name(vs[vs.len() - 1].check));
    }
}

/// Sum of the counts of a list of (name, count) pairs.
pub open spec fn count_sum(r: Seq<(Seq<char>, nat)>) -> nat
    decreases r.len(),
{
    if r.len() == 0 {
        0
    } else {
        count_sum(r.drop_last()) + r.last().1
    }
}

proof fn lemma_count_sum_concat(a: Seq<(Seq<char>, nat)>, b: Seq<(Seq<char>, nat)>)
    ensures
        count_sum(a + b) == count_sum(a) + count_sum(b),
    decreases b.len(),
{
    if b.len() == 0 {
        assert(a + b =~= a);
    } else {
        lemma_count_sum_concat(a, b.drop_last());
        assert((a + b).drop_last() =~= a + b.drop_last());
    }
}

/// Adding one to the count at `p`, or inserting a count of one at `p`,
/// adds one to the sum.
proof fn lemma_count_sum_step(r: Seq<(Seq<char>, nat)>, p: int, k: Seq<char>)
    requires
        0 <= p <= r.len(),
    ensures
        p < r.len() ==> count_sum(r.update(p, (r[p].0, r[p].1 + 1))) == count_sum(r) + 1,
        count_sum(r.insert(p, (k, 1nat))) == count_sum(r) + 1,
{
    let pre = r.take(p);
    let post = r.skip(p);
    assert(r =~= pre + post);
    lemma_count_sum_concat(pre, post);
    assert(r.insert(p, (k, 1nat)) =~= pre + (seq![(k, 1nat)] + post));
    lemma_count_sum_concat(pre, seq![(k, 1nat)] + post);
    lemma_count_sum_concat(seq![(k, 1nat)], post);
    assert(seq![(k, 1nat)].drop_last() =~= Seq::<(Seq<char>, nat)>::empty());
    let one = seq![(k, 1nat)];
    assert(one.last() == (k, 1nat));
    assert(count_sum(one.drop_last()) == 0);
    assert(count_sum(one) == 1);
    assert(count_sum(seq![(k, 1nat)] + post) == 1 + count_sum(post));
    if p < r.len() {
        let rest = r.skip(p + 1);
        assert(post =~= seq![r[p]] + rest);
        lemma_count_sum_concat(seq![r[p]], rest);
        assert(seq![r[p]].drop_last() =~= Seq::<(Seq<char>, nat)>::empty());
        let single = seq![r[p]];
        assert(single.last() == r[p]);
        assert(count_sum(single.drop_last()) == 0);
        assert(count_sum(single) == r[p].1);
        let e = (r[p].0, r[p].1 + 1);
        assert(r.update(p, e) =~= pre + (seq![e] + rest));
        lemma_count_sum_concat(pre, seq![e] + rest);
        lemma_count_sum_concat(seq![e], rest);
        assert(seq![e].drop_last() =~= Seq::<(Seq<char>, nat)>::empty());
        let se = seq![e];
        assert(se.last() == e);
        assert(count_sum(se.drop_last()) == 0);
        assert(count_sum(se) == e.1);
    }
}

pub open spec fn count_views(r: Seq<(&'static str, usize)>) -> Seq<(Seq<char>, nat)> {
    r.map_values(|p: (&'static str, usize)| (p.0@, p.1 as nat))
}

proof fn lemma_check_count_zero(vs: Seq<ViolationV>, c: Seq<char>)
    requires
        forall|k: int| 0 <= k < vs.len() ==> vs[k].check != c,
    ensures
        check_count(vs, c) == 0,
    decreases vs.len(),
{
    if vs.len() > 0 {
        lemma_check_count_zero(vs.drop_last(), c);
    }
}

proof fn lemma_check_count_bound(vs: Seq<ViolationV>, c: Seq<char>)
    ensures
        check_count(vs, c) <= vs.len(),
    decreases vs.len(),
{
    if vs.len() > 0 {
        lemma_check_count_bound(vs.drop_last(), c);
    }
}

/// `a` comes before `b` in text order.
pub fn text_less(a: &str, b: &str) -> (r: bool)
    ensures
        r == text_lt(a@, b@),
{
    let n = char_len(a);
    let m = char_len(b);
    let mut i: usize = 0;
    proof {
        assert(a@.skip(0) =~= a@);
        assert(b@.skip(0) =~= b@);
    }
    while i < n && i < m
        invariant
            n == a@.len(),
            m == b@.len(),
            i <= n,
            i <= m,
            text_lt(a@, b@) == text_lt(a@.skip(i as int), b@.skip(i as int)),
        decreases n - i,
    {
        let x = char_at(a, i);
        let y = char_at(b, i);
        if x != y {
            return (x as u32) < (y as u32);
        }
        assert(a@.skip(i as int).drop_first() =~= a@.skip(i + 1));
        assert(b@.skip(i as int).drop_first() =~= b@.skip(i + 1));
        i = i + 1;
    }
    i < m && i == n
}

impl SchemaReport {
    /// Number of violations of the check `check`.
    pub fn count_by_check(&self, check: &str) -> (r: usize)
        ensures
            r == check_count(violation_views(self.violations@), check@),
    {
        let ghost vs = violation_views(self.violations@);
        let mut n: usize = 0;
        let mut i: usize = 0;
        while i < self.violations.len()
            invariant
                i <= self.violations.len(),
                vs == violation_views(self.violations@),
                n == check_count(vs.take(i as int), check@),
            decreases self.violations.len() - i,
        {
            proof {
                assert(vs.take(i + 1).drop_last() =~= vs.take(i as int));
                lemma_check_count_bound(vs.take(i as int), check@);
            }
            if str_is(self.violations[i].check, check) {
                n = n + 1;
            }
            i = i + 1;
        }
        proof {
            assert(vs.take(i as int) =~= vs);
        }
        n
    }

    /// The checks that were broken, in text order, each with its number of
    /// violations.
    pub fn counts_by_check(&self) -> (r: Vec<(&'static str, usize)>)
        ensures
            is_check_counts(count_views(r@), violation_views(self.violations@)),
            count_sum(count_views(r@)) == self.violations@.len(),
    {
        let ghost vs = violation_views(self.violations@);
        let mut out: Vec<(&'static str, usize)> = Vec::new();
        let mut i: usize = 0;
        while i < self.violations.len()
            invariant
                i <= self.violations.len(),
                vs == violation_views(self.violations@),
                is_check_counts(count_views(out@), vs.take(i as int)),
                count_sum(count_views(out@)) == i,
            decreases self.violations.len() - i,
        {
            let c = self.violations[i].check;
            let ghost before = vs.take(i as int);
            let ghost after = vs.take(i + 1);
            proof {
                assert(after.drop_last() =~= before);
                assert(after.last() == vs[i as int]);
                lemma_check_count_bound(before, c@);
            }
            // position of the first entry not before `c`
            let mut p: usize = 0;
            while p < out.len() && text_less(out[p].0, c)
                invariant
                    p <= out.len(),
                    forall|q: int| 0 <= q < p ==> text_lt(#[trigger] out@[q].0@, c@),
                decreases out.len() - p,
            {
                p = p + 1;
            }
            let ghost old_out = count_views(out@);
            if p < out.len() && str_is(out[p].0, c) {
                let (k, cnt) = out[p];
                proof {
                    assert(old_out[p as int].0 == c@);
                    assert(old_out[p as int].1 == check_count(before, c@));
                }
                out.set(p, (k, cnt + 1));
                proof {
                    let nv = count_views(out@);
                    lemma_count_sum_step(old_out, p as int, c@);
                    assert(nv =~= old_out.update(p as int, (old_out[p as int].0, old_out[p as int].1 + 1)));
                    assert forall|q: int| 0 <= q < nv.len() implies check_count(after, #[trigger] nv[q].0) == nv[q].1 && nv[q].1 > 0 by {
                        assert(nv[q] == if q == p { (old_out[q].0, old_out[q].1 + 1) } else { old_out[q] });
                        if q != p {
                            if q < p {
                                assert(text_lt(old_out[q].0, old_out[p as int].0));
                            } else {
                                assert(text_lt(old_out[p as int].0, old_out[q].0));
                            }
                            lemma_text_lt_irreflexive(c@);
                        }
                    }
                    assert forall|a: int, b: int| 0 <= a < b < nv.len() implies text_lt(#[trigger] nv[a].0, #[trigger] nv[b].0) by {
                        assert(nv[a].0 == old_out[a].0);
                        assert(nv[b].0 == old_out[b].0);
                    }
                    assert forall|k2: int| 0 <= k2 < after.len() implies exists|q: int| 0 <= q < nv.len() && #[trigger] nv[q].0 == #[trigger] after[k2].check by {
                        if k2 < before.len() {
                            assert(after[k2] == before[k2]);
                            let q = choose|q: int| 0 <= q < old_out.len() && #[trigger] old_out[q].0 == #[trigger] before[k2].check;
                            assert(nv[q].0 == old_out[q].0);
                        } else {
                            assert(nv[p as int].0 == after[k2].check);
                        }
                    }
                }
            } else {
                proof {
                    assert forall|q: int| 0 <= q < old_out.len() implies old_out[q].0 != c@ by {
                        if q < p {
                            lemma_text_lt_irreflexive(c@);
                        } else if q > p {
                            assert(text_lt(old_out[p as int].0, old_out[q].0));
                            if old_out[q].0 == c@ {
                                lemma_text_lt_total(old_out[p as int].0, c@);
                                lemma_text_lt_transitive(c@, old_out[p as int].0, c@);
                                lemma_text_lt_irreflexive(c@);
                            }
                        }
                    }
                    assert forall|k2: int| 0 <= k2 < before.len() implies before[k2].check != c@ by {
                        let q = choose|q: int| 0 <= q < old_out.len() && #[trigger] old_out[q].0 == #[trigger] before[k2].check;
                    }
                    lemma_check_count_zero(before, c@);
                }
                out.insert(p, (c, 1));
                proof {
                    let nv = count_views(out@);
                    lemma_count_sum_step(old_out, p as int, c@);
                    assert(nv =~= old_out.insert(p as int, (c@, 1nat)));
                    assert(nv.len() == old_out.len() + 1);
                    assert forall|q: int| 0 <= q < nv.len() implies #[trigger] nv[q] == if q < p {
                        old_out[q]
                    } else if q == p {
                        (c@, 1nat)
                    } else {
                        old_out[q - 1]
                    } by {}
                    if p < old_out.len() {
                        lemma_text_lt_total(old_out[p as int].0, c@);
                    }
                    assert forall|a: int, b: int| 0 <= a < b < nv.len() implies text_lt(#[trigger] nv[a].0, #[trigger] nv[b].0) by {
                        if a < p && b == p {
                        } else if a < p && b > p {
                            assert(text_lt(old_out[a].0, old_out[b - 1].0));
                        } else if a == p && b > p {
                            if b - 1 > p {
                                assert(text_lt(old_out[p as int].0, old_out[b - 1].0));
                                lemma_text_lt_transitive(c@, old_out[p as int].0, old_out[b - 1].0);
                            }
                        } else if a > p {
                            assert(text_lt(old_out[a - 1].0, old_out[b - 1].0));
                        } else {
                            assert(text_lt(old_out[a].0, old_out[b].0));
                        }
                    }
                    assert forall|q: int| 0 <= q < nv.len() implies check_count(after, #[trigger] nv[q].0) == nv[q].1 && nv[q].1 > 0 by {
                        if q != p {
                            let oq = if q < p { q } else { q - 1 };
                            assert(nv[q] == old_out[oq]);
                        }
                    }
                    assert forall|k2: int| 0 <= k2 < after.len() implies exists|q: int| 0 <= q < nv.len() && #[trigger] nv[q].0 == #[trigger] after[k2].check by {
                        if k2 < before.len() {
                            assert(after[k2] == before[k2]);
                            let q = choose|q: int| 0 <= q < old_out.len() && #[trigger] old_out[q].0 == #[trigger] before[k2].check;
                            let nq = if q < p { q } else { q + 1 };
                            assert(nv[nq].0 == old_out[q].0);
                        } else {
                            assert(nv[p as int].0 == after[k2].check);
                        }
                    }
                }
            }
            i = i + 1;
        }
        proof {
            assert(vs.take(i as int) =~= vs);
        }
        out
    }

    /// `true` when no invariant is broken.
    pub fn is_clean(&self) -> (r: bool)
        ensures
            r == (self.violations@.len() == 0),
    {
        self.violations.len() == 0
    }
}

/// Converts statements to blocks, and checks block-schema dumps.
#[derive(Debug)]
pub struct BlockRegistry {}

fn non_executable_skeleton(s: &str) -> (r: bool)
    ensures
        r == non_executable(s@),
{
    str_is(s, "basic_text") || str_is(s, "basic_button")
}

fn push_violation(out: &mut Vec<Violation>, g: &SchemaGroup, id: &String, check: &'static str, detail: String)
    ensures
        violation_views(final(out)@) == violation_views(old(out)@).push(violation(g, id@, check@, detail@)),
{
    let v = Violation { group: g.group.clone(), file: g.file.clone(), block: id.clone(), check, detail };
    out.push(v);
    proof {
        assert(violation_views(final(out)@) =~= violation_views(old(out)@).push(violation(g, id@, check@, detail@)));
    }
}

fn check_skeleton(out: &mut Vec<Violation>, g: &SchemaGroup, id: &String, b: &BlockSchema)
    ensures
        violation_views(final(out)@) == violation_views(old(out)@) + skeleton_violations(g, id@, b),
{
    let ghost start = violation_views(out@);
    match &b.skeleton {
        Some(s) => {
            if char_len(s.as_str()) == 0 {
                push_violation(out, g, id, CHECK_SKELETON_PRESENT, owned("skeleton missing or empty: Some(\"\")"));
            }
        },
        None => {
            push_violation(out, g, id, CHECK_SKELETON_PRESENT, owned("skeleton missing or empty: None"));
        },
    }
    assert(violation_views(out@) =~= start + skeleton_violations(g, id@, b));
}

fn check_def_type(out: &mut Vec<Violation>, g: &SchemaGroup, id: &String, b: &BlockSchema)
    ensures
        violation_views(final(out)@) == violation_views(old(out)@) + def_type_violations(g, id@, b),
{
    let ghost start = violation_views(out@);
    if let Some(dt) = &b.def_type {
        if !str_is(dt.as_str(), id.as_str()) {
            let mut d = String::new();
            push_str(&mut d, "def.type='");
            push_str(&mut d, dt.as_str());
            push_str(&mut d, "' != block id '");
            push_str(&mut d, id.as_str());
            push_str(&mut d, "'");
            proof {
                assert(d@ =~= "def.type='"@ + dt@ + "' != block id '"@ + id@ + "'"@);
            }
            push_violation(out, g, id, CHECK_DEF_TYPE_MATCH, d);
        }
    }
    assert(violation_views(out@) =~= start + def_type_violations(g, id@, b));
}

fn check_params(out: &mut Vec<Violation>, g: &SchemaGroup, id: &String, b: &BlockSchema)
    ensures
        violation_views(final(out)@) == violation_views(old(out)@) + params_violations(g, id@, b),
{
    let ghost start = violation_views(out@);
    if let Some(ps) = &b.params {
        if ps.len() != b.param_count {
            let mut d = String::new();
            push_str(&mut d, "params len ");
            let a = usize_string(ps.len());
            push_str(&mut d, a.as_str());
            push_str(&mut d, " != paramCount ");
            let c = usize_string(b.param_count);
            push_str(&mut d, c.as_str());
            proof {
                assert(d@ =~= "params len "@ + dec_text(ps.len() as nat) + " != paramCount "@ + dec_text(b.param_count as nat));
            }
            push_violation(out, g, id, CHECK_PARAMS_CONSISTENT, d);
        }
        let ghost mid = violation_views(out@);
        assert(mid =~= start + (if ps.len() == b.param_count {
            Seq::empty()
        } else {
            seq![violation(g, id@, CHECK_PARAMS_CONSISTENT@,
                "params len "@ + dec_text(ps.len() as nat) + " != paramCount "@ + dec_text(b.param_count as nat))]
        }));
        let mut i: usize = 0;
        assert(mid =~= mid + untyped_violations(g, id@, ps@, 0));
        while i < ps.len()
            invariant
                i <= ps.len(),
                violation_views(out@) == mid + untyped_violations(g, id@, ps@, i as nat),
            decreases ps.len() - i,
        {
            if ps[i].is_none() {
                let mut d = String::new();
                push_str(&mut d, "param[");
                let a = usize_string(i);
                push_str(&mut d, a.as_str());
                push_str(&mut d, "] has no type");
                proof {
                    assert(d@ =~= "param["@ + dec_text(i as nat) + "] has no type"@);
                }
                push_violation(out, g, id, CHECK_PARAMS_TYPED, d);
            }
            proof {
                assert(violation_views(out@) =~= mid + untyped_violations(g, id@, ps@, (i + 1) as nat));
            }
            i = i + 1;
        }
    }
    assert(violation_views(out@) =~= start + params_violations(g, id@, b));
}

fn check_func(out: &mut Vec<Violation>, g: &SchemaGroup, id: &String, b: &BlockSchema)
    ensures
        violation_views(final(out)@) == violation_views(old(out)@) + func_violations(g, id@, b),
{
    let ghost start = violation_views(out@);
    if let Some(s) = &b.skeleton {
        if !non_executable_skeleton(s.as_str()) && !b.has_func {
            let mut d = String::new();
            push_str(&mut d, "executable skeleton '");
            push_str(&mut d, s.as_str());
            push_str(&mut d, "' missing func");
            proof {
                assert(d@ =~= "executable skeleton '"@ + s@ + "' missing func"@);
            }
            push_violation(out, g, id, CHECK_FUNC_EXPECTED, d);
        }
    }
    assert(violation_views(out@) =~= start + func_violations(g, id@, b));
}

fn check_block(out: &mut Vec<Violation>, g: &SchemaGroup, id: &String, b: &BlockSchema)
    ensures
        violation_views(final(out)@) == violation_views(old(out)@) + block_violations(g, id@, b),
{
    let ghost start = violation_views(out@);
    check_skeleton(out, g, id, b);
    check_def_type(out, g, id, b);
    check_params(out, g, id, b);
    check_func(out, g, id, b);
    assert(violation_views(out@) =~= start + block_violations(g, id@, b));
}

impl BlockRegistry {
    pub fn new() -> (r: BlockRegistry) {
        BlockRegistry {}
    }

    /// Converts one statement to its block.
    pub fn convert(&self, stmt: &Stmt) -> (r: crate::error::Result<Block>)
        ensures
            agrees(r, low_stmt(stmt@), |b: Block| b@),
    {
        from_stmt(stmt)
    }

    /// Checks every block of the dump in one pass: the skeleton is present,
    /// the definition's type is the block id, the parameter list has the
    /// declared length and typed entries, and an executable skeleton has a
    /// function.
    pub fn validate_schema(&self, dump: &SchemaDump) -> (r: SchemaReport)
        requires
            dump.well_formed(),
            block_total(dump.groups@, dump.groups@.len()) <= usize::MAX,
        ensures
            r.total_blocks == block_total(dump.groups@, dump.groups@.len()),
            violation_views(r.violations@) == dump_violations(dump.groups@, dump.groups@.len()),
            (r.violations@.len() == 0) == groups_sound(dump.groups@, dump.groups@.len()),
            forall|k: int| 0 <= k < r.violations@.len() ==> is_check_name((#[trigger] r.violations@[k]).check@),
            five_counts(violation_views(r.violations@)) == r.violations@.len(),
    {
        let mut total: usize = 0;
        let mut out: Vec<Violation> = Vec::new();
        let mut gi: usize = 0;
        while gi < dump.groups.len()
            invariant
                gi <= dump.groups.len(),
                block_total(dump.groups@, dump.groups@.len()) <= usize::MAX,
                total == block_total(dump.groups@, gi as nat),
                violation_views(out@) == dump_violations(dump.groups@, gi as nat),
            decreases dump.groups.len() - gi,
        {
            let g = &dump.groups[gi];
            proof {
                lemma_block_total_mono(dump.groups@, (gi + 1) as nat, dump.groups@.len());
            }
            let ghost start = violation_views(out@);
            let mut bi: usize = 0;
            while bi < g.blocks.len()
                invariant
                    bi <= g.blocks.len(),
                    g == dump.groups@[gi as int],
                    total == block_total(dump.groups@, gi as nat) + bi,
                    block_total(dump.groups@, (gi + 1) as nat) <= usize::MAX,
                    violation_views(out@) == start + group_violations(g, bi as nat),
                decreases g.blocks.len() - bi,
            {
                let (id, b) = &g.blocks[bi];
                total = total + 1;
                check_block(&mut out, g, id, b);
                proof {
                    assert(violation_views(out@) =~= start + group_violations(g, (bi + 1) as nat));
                }
                bi = bi + 1;
            }
            proof {
                assert(violation_views(out@) =~= dump_violations(dump.groups@, (gi + 1) as nat));
            }
            gi = gi + 1;
        }
        proof {
            let vs = violation_views(out@);
            law_clean_iff_sound(dump.groups@);
            assert forall|k: int| 0 <= k < out@.len() implies is_check_name((#[trigger] out@[k]).check@) by {
                assert(vs[k] == out@[k]@);
            }
            law_five_counts_sum(vs);
        }
        SchemaReport { total_blocks: total, violations: out }
    }
}

proof fn lemma_block_total_mono(gs: Seq<SchemaGroup>, a: nat, b: nat)
    requires
        a <= b,
    ensures
        block_total(gs, a) <= block_total(gs, b),
    decreases b,
{
    if a < b {
        lemma_block_total_mono(gs, a, (b - 1) as nat);
    }
}

} // verus!
