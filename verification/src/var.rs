//! Entry variables, and the table that finds them by id or by name.

use vstd::prelude::*;

pub use crate::ir::VarScope;
use crate::json::{jget, jstr, Json, JsonV};

verus! {

/// Kind of an Entry variable.
#[derive(Debug, Clone, Copy, PartialEq, Eq, Structural)]
pub enum VarKind {
    Variable,
    Timer,
    Answer,
    List,
    Cloud,
    RealTime,
    Unknown,
}

/// Initial value of a variable.
#[derive(Debug, Clone, Copy, PartialEq, Eq, Structural)]
pub enum VarInit {
    Int0,
    Float0,
    EmptyStr,
    False,
    EmptyList,
}

/// One variable of a project.
#[derive(Debug)]
pub struct VarInfo {
    /// Its Entry id.
    pub id: String,
    /// Its name as a source identifier.
    pub name: String,
    /// Its name as Entry shows it.
    pub original_name: String,
    pub kind: VarKind,
    pub init: VarInit,
    pub scope: VarScope,
}

/// Model of a variable.
pub struct VarInfoV {
    pub id: Seq<char>,
    pub name: Seq<char>,
    pub original_name: Seq<char>,
    pub kind: VarKind,
    pub init: VarInit,
    pub scope: VarScope,
}

impl View for VarInfo {
    type V = VarInfoV;

    open spec fn view(&self) -> VarInfoV {
        VarInfoV {
            id: self.id@,
            name: self.name@,
            original_name: self.original_name@,
            kind: self.kind,
            init: self.init,
            scope: self.scope,
        }
    }
}

impl VarInfo {
    /// A copy of this variable.
    pub fn duplicate(&self) -> (r: VarInfo)
        ensures
            r@ == self@,
    {
        VarInfo {
            id: self.id.clone(),
            name: self.name.clone(),
            original_name: self.original_name.clone(),
            kind: self.kind,
            init: self.init,
            scope: self.scope,
        }
    }
}

/// Variables by id, as the entries `s` give them: a later entry for an id
/// hides an earlier one.
pub open spec fn entries_map(s: Seq<VarInfoV>) -> Map<Seq<char>, VarInfoV>
    decreases s.len(),
{
    if s.len() == 0 {
        Map::empty()
    } else {
        entries_map(s.drop_last()).insert(s.last().id, s.last())
    }
}

/// Ids by name, as the pairs `s` give them: a later pair hides an earlier one.
pub open spec fn pairs_map(s: Seq<(Seq<char>, Seq<char>)>) -> Map<Seq<char>, Seq<char>>
    decreases s.len(),
{
    if s.len() == 0 {
        Map::empty()
    } else {
        pairs_map(s.drop_last()).insert(s.last().0, s.last().1)
    }
}

/// Model of a variable table: variables by id, and ids by name.
pub struct VarMapV {
    pub ids: Map<Seq<char>, VarInfoV>,
    pub names: Map<Seq<char>, Seq<char>>,
}

impl VarMapV {
    /// Every variable is stored under its own id, and finitely many are.
    pub open spec fn well_formed(&self) -> bool {
        &&& self.ids.dom().finite()
        &&& forall|k: Seq<char>| #[trigger] self.ids.contains_key(k) ==> self.ids[k].id == k
    }
}

/// Variables by id and by name.
#[derive(Debug)]
pub struct VarMap {
    entries: Vec<VarInfo>,
    names: Vec<(String, String)>,
}

/// Models of a sequence of variables.
pub open spec fn info_views(s: Seq<VarInfo>) -> Seq<VarInfoV> {
    s.map_values(|v: VarInfo| v@)
}

/// Models of a sequence of string pairs.
pub open spec fn pair_views(s: Seq<(String, String)>) -> Seq<(Seq<char>, Seq<char>)> {
    s.map_values(|p: (String, String)| (p.0@, p.1@))
}

impl View for VarMap {
    type V = VarMapV;

    closed spec fn view(&self) -> VarMapV {
        VarMapV {
            ids: entries_map(info_views(self.entries@)),
            names: pairs_map(pair_views(self.names@)),
        }
    }
}

/// The name a block shows for variable `id`: the table's name for it, or
/// the id itself when the table does not know it.
pub open spec fn resolved_name(vm: VarMapV, id: Seq<char>) -> Seq<char> {
    if vm.ids.contains_key(id) {
        vm.ids[id].name
    } else {
        id
    }
}

/// Entries after the first `i` do not hold `k`: the map is that of the
/// first `i` entries, at `k`.
proof fn lemma_entries_prefix(s: Seq<VarInfoV>, i: int, k: Seq<char>)
    requires
        0 <= i <= s.len(),
        forall|j: int| i <= j < s.len() ==> s[j].id != k,
    ensures
        entries_map(s).contains_key(k) == entries_map(s.take(i)).contains_key(k),
        entries_map(s).contains_key(k) ==> entries_map(s)[k] == entries_map(s.take(i))[k],
    decreases s.len(),
{
    if s.len() == i {
        assert(s.take(i) =~= s);
    } else {
        lemma_entries_prefix(s.drop_last(), i, k);
        assert(s.drop_last().take(i) =~= s.take(i));
    }
}

pub proof fn lemma_pairs_prefix(s: Seq<(Seq<char>, Seq<char>)>, i: int, k: Seq<char>)
    requires
        0 <= i <= s.len(),
        forall|j: int| i <= j < s.len() ==> s[j].0 != k,
    ensures
        pairs_map(s).contains_key(k) == pairs_map(s.take(i)).contains_key(k),
        pairs_map(s).contains_key(k) ==> pairs_map(s)[k] == pairs_map(s.take(i))[k],
    decreases s.len(),
{
    if s.len() == i {
        assert(s.take(i) =~= s);
    } else {
        lemma_pairs_prefix(s.drop_last(), i, k);
        assert(s.drop_last().take(i) =~= s.take(i));
    }
}

/// Adding an entry at the end sets its id.
proof fn lemma_entries_push(s: Seq<VarInfoV>, v: VarInfoV)
    ensures
        entries_map(s.push(v)) == entries_map(s).insert(v.id, v),
{
    assert(s.push(v).drop_last() =~= s);
}

/// Dropping every entry for `k` removes `k` and keeps the rest.
proof fn lemma_entries_without(s: Seq<VarInfoV>, k: Seq<char>)
    ensures
        entries_map(s.filter(|v: VarInfoV| v.id != k)) == entries_map(s).remove(k),
    decreases s.len(),
{
    let f = |v: VarInfoV| v.id != k;
    reveal(Seq::filter);
    if s.len() == 0 {
        assert(entries_map(s).remove(k) =~= Map::empty());
    } else {
        let d = s.drop_last();
        let x = s.last();
        lemma_entries_without(d, k);
        assert(entries_map(s) == entries_map(d).insert(x.id, x));
        if x.id == k {
            assert(s.filter(f) == d.filter(f));
            assert(entries_map(s).remove(k) =~= entries_map(d).remove(k));
        } else {
            assert(s.filter(f) == d.filter(f).push(x));
            lemma_entries_push(d.filter(f), x);
            assert(entries_map(s).remove(k) =~= entries_map(d).remove(k).insert(x.id, x));
        }
    }
}

impl VarMap {
    /// An empty table.
    pub fn new() -> (r: VarMap)
        ensures
            r@.well_formed(),
            r@.ids == Map::<Seq<char>, VarInfoV>::empty(),
            r@.names == Map::<Seq<char>, Seq<char>>::empty(),
    {
        let r = VarMap { entries: Vec::new(), names: Vec::new() };
        proof {
            assert(info_views(r.entries@) =~= Seq::<VarInfoV>::empty());
            assert(pair_views(r.names@) =~= Seq::<(Seq<char>, Seq<char>)>::empty());
        }
        r
    }

    /// Adds `info`; it is then found by its id, and its name leads to its id.
    pub fn insert(&mut self, info: VarInfo)
        ensures
            final(self)@.ids == old(self)@.ids.insert(info.id@, info@),
            final(self)@.names == old(self)@.names.insert(info.name@, info.id@),
            final(self)@.well_formed(),
    {
        let ghost iv = info@;
        let name = info.name.clone();
        let id = info.id.clone();
        self.names.push((name, id));
        self.entries.push(info);
        proof {
            assert(info_views(self.entries@).drop_last() =~= info_views(old(self).entries@));
            assert(pair_views(self.names@).drop_last() =~= pair_views(old(self).names@));
            self.lemma_well_formed();
        }
    }

    /// Adds `info` in place of the variable that `name` led to, if any.
    pub fn replace(&mut self, name: &str, info: VarInfo)
        ensures
            old(self)@.names.contains_key(name@) ==> final(self)@.ids == old(self)@.ids.remove(
                old(self)@.names[name@],
            ).insert(info.id@, info@),
            !old(self)@.names.contains_key(name@) ==> final(self)@.ids == old(self)@.ids.insert(
                info.id@,
                info@,
            ),
            final(self)@.names == old(self)@.names.insert(info.name@, info.id@),
            final(self)@.well_formed(),
    {
        match self.id_of_name(name) {
            Some(old_id) => {
                let old_id = old_id.to_owned();
                let ghost k = old_id@;
                let ghost s = info_views(self.entries@);
                let ghost f = |v: VarInfoV| v.id != k;
                let mut kept: Vec<VarInfo> = Vec::new();
                let mut i: usize = 0;
                while i < self.entries.len()
                    invariant
                        i <= self.entries.len(),
                        s == info_views(self.entries@),
                        info_views(kept@) == s.take(i as int).filter(f),
                        k == old_id@,
                        f == (|v: VarInfoV| v.id != k),
                    decreases self.entries.len() - i,
                {
                    let ghost before = kept@;
                    proof {
                        reveal(Seq::filter);
                        assert(s.take(i + 1).drop_last() =~= s.take(i as int));
                        assert(s.take(i + 1).last() == s[i as int]);
                        assert(s[i as int] == self.entries@[i as int]@);
                        assert(s.take(i + 1).filter(f) == if s[i as int].id != k {
                            s.take(i as int).filter(f).push(s[i as int])
                        } else {
                            s.take(i as int).filter(f)
                        });
                    }
                    if !crate::text::str_is(self.entries[i].id.as_str(), old_id.as_str()) {
                        let d = self.entries[i].duplicate();
                        kept.push(d);
                        proof {
                            assert(info_views(kept@) =~= info_views(before).push(s[i as int]));
                        }
                    }
                    i = i + 1;
                }
                proof {
                    assert(s.take(s.len() as int) =~= s);
                    lemma_entries_without(s, k);
                }
                self.entries = kept;
                self.insert(info);
            },
            None => {
                self.insert(info);
            },
        }
    }

    /// The id that `name` leads to.
    pub fn id_of_name(&self, name: &str) -> (r: Option<&str>)
        ensures
            r matches Some(i) ==> self@.names.contains_key(name@) && i@ == self@.names[name@],
            r is None ==> !self@.names.contains_key(name@),
    {
        pairs_get(&self.names, name)
    }

    /// The variable with id `id`.
    pub fn get(&self, id: &str) -> (r: Option<&VarInfo>)
        ensures
            r matches Some(v) ==> self@.ids.contains_key(id@) && v@ == self@.ids[id@],
            r is None ==> !self@.ids.contains_key(id@),
    {
        let ghost s = info_views(self.entries@);
        let mut i: usize = self.entries.len();
        while i > 0
            invariant
                i <= self.entries.len(),
                s == info_views(self.entries@),
                forall|j: int| i <= j < s.len() ==> s[j].id != id@,
            decreases i,
        {
            if crate::text::str_is(self.entries[i - 1].id.as_str(), id) {
                proof {
                    lemma_entries_prefix(s, i as int, id@);
                    assert(s.take(i as int).drop_last() =~= s.take(i - 1));
                }
                return Some(&self.entries[i - 1]);
            }
            i = i - 1;
        }
        proof {
            lemma_entries_prefix(s, 0, id@);
            assert(s.take(0) =~= Seq::<VarInfoV>::empty());
        }
        None
    }

    /// The variable that `name` leads to.
    pub fn get_by_name(&self, name: &str) -> (r: Option<&VarInfo>)
        ensures
            r matches Some(v) ==> self@.names.contains_key(name@) && self@.ids.contains_key(
                self@.names[name@],
            ) && v@ == self@.ids[self@.names[name@]],
            r is None ==> !self@.names.contains_key(name@) || !self@.ids.contains_key(
                self@.names[name@],
            ),
            match r {
                Some(v) => var_by_name(self@, name@) == Some(v@),
                None => var_by_name(self@, name@) is None,
            },
    {
        match self.id_of_name(name) {
            Some(id) => self.get(id),
            None => None,
        }
    }

    /// The id of the variable whose source identifier is that of `name`.
    pub fn id_by_name(&self, name: &str) -> (r: Option<&str>)
        ensures
            r matches Some(i) ==> self@.names.contains_key(crate::block::names::sanitized(name@))
                && i@ == self@.names[crate::block::names::sanitized(name@)],
            r is None ==> !self@.names.contains_key(crate::block::names::sanitized(name@)),
    {
        let s = crate::block::names::sanitize_ident(name);
        self.id_of_name(s.as_str())
    }

    /// The name Entry shows for variable `id`.
    pub fn name_by_id(&self, id: &str) -> (r: Option<&str>)
        ensures
            r matches Some(n) ==> self@.ids.contains_key(id@) && n@ == self@.ids[id@].original_name,
            r is None ==> !self@.ids.contains_key(id@),
    {
        match self.get(id) {
            Some(info) => Some(info.original_name.as_str()),
            None => None,
        }
    }

    /// The source identifier of variable `id`.
    pub fn dsl_name_by_id(&self, id: &str) -> (r: Option<&str>)
        ensures
            r matches Some(n) ==> self@.ids.contains_key(id@) && n@ == self@.ids[id@].name,
            r is None ==> !self@.ids.contains_key(id@),
    {
        match self.get(id) {
            Some(info) => Some(info.name.as_str()),
            None => None,
        }
    }

    /// Every variable of the table, each once.
    pub fn iter(&self) -> (r: Vec<&VarInfo>)
        ensures
            lists_vars(info_ref_views(r@), self@),
            forall|i: int, j: int| 0 <= i < j < r@.len() ==> r@[i].id@ != r@[j].id@,
            forall|i: int|
                0 <= i < r@.len() ==> self@.ids.contains_key(r@[i].id@) && self@.ids[r@[i].id@]
                    == r@[i]@,
            forall|k: Seq<char>|
                self@.ids.contains_key(k) ==> exists|i: int|
                    #![trigger r@[i]]
                    0 <= i < r@.len() && r@[i].id@ == k,
    {
        let ghost s = info_views(self.entries@);
        let mut out: Vec<&VarInfo> = Vec::new();
        let mut i: usize = self.entries.len();
        while i > 0
            invariant
                i <= self.entries.len(),
                s == info_views(self.entries@),
                forall|a: int, b: int| 0 <= a < b < out@.len() ==> out@[a].id@ != out@[b].id@,
                forall|a: int|
                    0 <= a < out@.len() ==> entries_map(s).contains_key(out@[a].id@)
                        && entries_map(s)[out@[a].id@] == out@[a]@,
                forall|j: int|
                    #![trigger s[j]]
                    i <= j < s.len() ==> exists|a: int|
                        #![trigger out@[a]]
                        0 <= a < out@.len() && out@[a].id@ == s[j].id,
            decreases i,
        {
            let cand = &self.entries[i - 1];
            let mut seen = false;
            let mut a: usize = 0;
            while a < out.len()
                invariant
                    a <= out@.len(),
                    seen <==> exists|b: int| #![trigger out@[b]] 0 <= b < a && out@[b].id@ == cand.id@,
                decreases out.len() - a,
            {
                if crate::text::str_is(out[a].id.as_str(), cand.id.as_str()) {
                    seen = true;
                }
                a = a + 1;
            }
            let ghost prev = out@;
            if !seen {
                proof {
                    lemma_entries_prefix(s, i as int, cand.id@);
                    assert(s.take(i as int).drop_last() =~= s.take(i - 1));
                    assert(s[i - 1] == cand@);
                }
                out.push(cand);
            }
            proof {
                assert forall|j: int| #![trigger s[j]] i - 1 <= j < s.len() implies exists|a: int|
                    #![trigger out@[a]]
                    0 <= a < out@.len() && out@[a].id@ == s[j].id by {
                    if j == i - 1 {
                        assert(s[j] == cand@);
                        if seen {
                            let b = choose|b: int| #![trigger prev[b]] 0 <= b < a && prev[b].id@ == cand.id@;
                            assert(out@[b] == prev[b]);
                        } else {
                            assert(out@[out@.len() - 1] == cand);
                        }
                    } else {
                        let b = choose|b: int| #![trigger prev[b]] 0 <= b < prev.len() && prev[b].id@ == s[j].id;
                        assert(out@[b] == prev[b]);
                    }
                }
            }
            i = i - 1;
        }
        proof {
            assert forall|k: Seq<char>| entries_map(s).contains_key(k) implies exists|a: int|
                #![trigger out@[a]]
                0 <= a < out@.len() && out@[a].id@ == k by {
                if forall|j: int| 0 <= j < s.len() ==> s[j].id != k {
                    lemma_entries_prefix(s, 0, k);
                    assert(s.take(0) =~= Seq::<VarInfoV>::empty());
                } else {
                    let j = choose|j: int| 0 <= j < s.len() && s[j].id == k;
                    assert(s[j].id == k);
                }
            }
            let vs = info_ref_views(out@);
            assert forall|a: int, b: int| 0 <= a < b < vs.len() implies vs[a].id != vs[b].id by {
                assert(out@[a].id@ != out@[b].id@);
            }
            assert forall|k: Seq<char>| self@.ids.contains_key(k) implies exists|a: int| 0 <= a < vs.len() && #[trigger] vs[a].id == k by {
                let a = choose|a: int| #![trigger out@[a]] 0 <= a < out@.len() && out@[a].id@ == k;
                assert(vs[a].id == k);
            }
            assert forall|a: int| 0 <= a < vs.len() implies self@.ids.contains_key(vs[a].id) && self@.ids[vs[a].id] == vs[a] by {
                assert(vs[a] == out@[a]@);
            }
        }
        out
    }

    /// Whether the table holds no variable.
    pub fn is_empty(&self) -> (r: bool)
        ensures
            self@.ids.dom().finite(),
            r == (self@.ids.dom().len() == 0),
            r == (self@.ids.dom() == Set::<Seq<char>>::empty()),
    {
        proof {
            self.lemma_finite();
        }
        let r = self.entries.len() == 0;
        proof {
            let s = info_views(self.entries@);
            if s.len() > 0 {
                assert(entries_map(s).contains_key(s.last().id));
                assert(entries_map(s).dom().len() > 0);
                assert(entries_map(s).dom() != Set::<Seq<char>>::empty());
            } else {
                assert(entries_map(s).dom() =~= Set::<Seq<char>>::empty());
            }
        }
        r
    }

    proof fn lemma_finite(&self)
        ensures
            self@.ids.dom().finite(),
    {
        lemma_entries_finite(info_views(self.entries@));
    }

    /// Every table is well formed: finitely many variables, each stored
    /// under its own id.
    pub proof fn lemma_well_formed(&self)
        ensures
            self@.well_formed(),
    {
        lemma_entries_finite(info_views(self.entries@));
        lemma_entries_keyed(info_views(self.entries@));
    }
}

proof fn lemma_entries_keyed(s: Seq<VarInfoV>)
    ensures
        forall|k: Seq<char>| #[trigger] entries_map(s).contains_key(k) ==> entries_map(s)[k].id == k,
    decreases s.len(),
{
    if s.len() > 0 {
        lemma_entries_keyed(s.drop_last());
    }
}

proof fn lemma_entries_finite(s: Seq<VarInfoV>)
    ensures
        entries_map(s).dom().finite(),
    decreases s.len(),
{
    if s.len() > 0 {
        lemma_entries_finite(s.drop_last());
    }
}

/// The value that the last pair with key `key` gives it.
pub fn pairs_get<'a>(pairs: &'a Vec<(String, String)>, key: &str) -> (r: Option<&'a str>)
    ensures
        r matches Some(v) ==> pairs_map(pair_views(pairs@)).contains_key(key@) && v@ == pairs_map(
            pair_views(pairs@),
        )[key@],
        r is None ==> !pairs_map(pair_views(pairs@)).contains_key(key@),
{
    let ghost s = pair_views(pairs@);
    let mut i: usize = pairs.len();
    while i > 0
        invariant
            i <= pairs.len(),
            s == pair_views(pairs@),
            forall|j: int| i <= j < s.len() ==> s[j].0 != key@,
        decreases i,
    {
        if crate::text::str_is(pairs[i - 1].0.as_str(), key) {
            proof {
                lemma_pairs_prefix(s, i as int, key@);
                assert(s.take(i as int).drop_last() =~= s.take(i - 1));
            }
            return Some(pairs[i - 1].1.as_str());
        }
        i = i - 1;
    }
    proof {
        lemma_pairs_prefix(s, 0, key@);
        assert(s.take(0) =~= Seq::<(Seq<char>, Seq<char>)>::empty());
    }
    None
}

/// Adding a pair sets its key.
pub proof fn lemma_pairs_push(s: Seq<(Seq<char>, Seq<char>)>, k: Seq<char>, v: Seq<char>)
    ensures
        pairs_map(s.push((k, v))) == pairs_map(s).insert(k, v),
{
    assert(s.push((k, v)).drop_last() =~= s);
}

/// Looking a variable up by its id after adding it gives it back, and
/// its name leads to its id.
pub proof fn law_insert_then_get_model(m: VarMapV, info: VarInfoV)
    ensures
        ({
            let after = VarMapV {
                ids: m.ids.insert(info.id, info),
                names: m.names.insert(info.name, info.id),
            };
            &&& after.ids[info.id] == info
            &&& after.names[info.name] == info.id
            &&& resolved_name(after, info.id) == info.name
        }),
{
}


/// After adding a variable to a table, the table is not empty, the
/// variable is found by its id and by its name, and every other id finds
/// what it found before.
pub proof fn law_insert_then_get(before: VarMapV, after: VarMapV, info: VarInfoV)
    requires
        before.well_formed(),
        after.ids == before.ids.insert(info.id, info),
        after.names == before.names.insert(info.name, info.id),
    ensures
        after.well_formed(),
        after.ids.dom().len() > 0,
        after.ids[info.id] == info,
        after.names[info.name] == info.id,
        forall|k: Seq<char>| k != info.id ==> (#[trigger] after.ids.contains_key(k) == before.ids.contains_key(k)
            && (after.ids.contains_key(k) ==> after.ids[k] == before.ids[k])),
{
    assert(after.ids.dom() =~= before.ids.dom().insert(info.id));
    vstd::set_lib::lemma_set_empty_equivalency_len(after.ids.dom());
    assert(after.ids.dom().contains(info.id));
}

/// Replacing the variable that a name leads to: the old variable's id no
/// longer finds anything (unless it is the new id), the new variable is
/// found by its id and by its name, and every other id finds what it found
/// before.
pub proof fn law_replace(before: VarMapV, after: VarMapV, name: Seq<char>, info: VarInfoV)
    requires
        before.well_formed(),
        before.names.contains_key(name),
        after.ids == before.ids.remove(before.names[name]).insert(info.id, info),
        after.names == before.names.insert(info.name, info.id),
    ensures
        after.well_formed(),
        before.names[name] != info.id ==> !after.ids.contains_key(before.names[name]),
        before.ids.contains_key(before.names[name]) && before.names[name] != info.id ==> !after.ids.contains_key(
            before.ids[before.names[name]].id,
        ),
        after.ids[info.id] == info,
        after.names[info.name] == info.id,
        forall|k: Seq<char>| k != info.id && k != before.names[name] ==> (#[trigger] after.ids.contains_key(k)
            == before.ids.contains_key(k) && (after.ids.contains_key(k) ==> after.ids[k] == before.ids[k])),
{
}

/// The table model that inserting the variables of `s`, in order, into an
/// empty table gives (each step as `insert` states it).
pub open spec fn after_inserts(s: Seq<VarInfoV>) -> VarMapV
    decreases s.len(),
{
    if s.len() == 0 {
        VarMapV { ids: Map::empty(), names: Map::empty() }
    } else {
        let m = after_inserts(s.drop_last());
        VarMapV { ids: m.ids.insert(s.last().id, s.last()), names: m.names.insert(s.last().name, s.last().id) }
    }
}

/// What `get_by_name` finds for `n` in a table of model `vm`.
pub open spec fn var_by_name(vm: VarMapV, n: Seq<char>) -> Option<VarInfoV> {
    if vm.names.contains_key(n) && vm.ids.contains_key(vm.names[n]) {
        Some(vm.ids[vm.names[n]])
    } else {
        None
    }
}

/// The last variable of `s` named `n`.
pub open spec fn last_named(s: Seq<VarInfoV>, n: Seq<char>) -> Option<VarInfoV>
    decreases s.len(),
{
    if s.len() == 0 {
        None
    } else if s.last().name == n {
        Some(s.last())
    } else {
        last_named(s.drop_last(), n)
    }
}

/// No two variables of `s` share an id.
pub open spec fn distinct_ids(s: Seq<VarInfoV>) -> bool {
    forall|i: int, j: int| 0 <= i < j < s.len() ==> (#[trigger] s[i]).id != (#[trigger] s[j]).id
}

/// The id a name leads to is that of a variable inserted under the name.
proof fn lemma_name_leads_to_inserted(s: Seq<VarInfoV>, n: Seq<char>)
    ensures
        after_inserts(s).names.contains_key(n) ==> exists|j: int|
            0 <= j < s.len() && (#[trigger] s[j]).id == after_inserts(s).names[n] && s[j].name == n,
    decreases s.len(),
{
    if s.len() > 0 {
        let d = s.drop_last();
        lemma_name_leads_to_inserted(d, n);
        if s.last().name != n && after_inserts(s).names.contains_key(n) {
            let j = choose|j: int| 0 <= j < d.len() && (#[trigger] d[j]).id == after_inserts(d).names[n] && d[j].name == n;
            assert(s[j] == d[j]);
        } else if s.last().name == n {
            assert(s[s.len() - 1] == s.last());
        }
    }
}

/// `last_named` finds a variable exactly when one has the name, and then
/// the last one with it.
proof fn lemma_last_named(s: Seq<VarInfoV>, n: Seq<char>)
    ensures
        (last_named(s, n) is Some) == (exists|i: int| 0 <= i < s.len() && (#[trigger] s[i]).name == n),
        last_named(s, n) matches Some(v) ==> exists|i: int|
            0 <= i < s.len() && #[trigger] s[i] == v && v.name == n && forall|j: int| i < j < s.len() ==> (#[trigger] s[j]).name != n,
    decreases s.len(),
{
    if s.len() > 0 {
        let d = s.drop_last();
        let last = s.len() - 1;
        assert(s[last] == s.last());
        lemma_last_named(d, n);
        if s.last().name != n {
            if exists|i: int| 0 <= i < s.len() && (#[trigger] s[i]).name == n {
                let i = choose|i: int| 0 <= i < s.len() && (#[trigger] s[i]).name == n;
                assert(d[i] == s[i]);
            }
            if exists|i: int| 0 <= i < d.len() && (#[trigger] d[i]).name == n {
                let i = choose|i: int| 0 <= i < d.len() && (#[trigger] d[i]).name == n;
                assert(d[i] == s[i]);
            }
            if last_named(d, n) is Some {
                let v = last_named(d, n)->0;
                let i = choose|i: int|
                    0 <= i < d.len() && #[trigger] d[i] == v && v.name == n && forall|j: int| i < j < d.len() ==> (#[trigger] d[j]).name != n;
                assert(s[i] == d[i]);
                assert forall|j: int| i < j < s.len() implies (#[trigger] s[j]).name != n by {
                    if j < last {
                        assert(s[j] == d[j]);
                    }
                }
            }
        }
    }
}

proof fn lemma_by_name_after_inserts(s: Seq<VarInfoV>, n: Seq<char>)
    requires
        distinct_ids(s),
    ensures
        var_by_name(after_inserts(s), n) == last_named(s, n),
    decreases s.len(),
{
    if s.len() > 0 {
        let d = s.drop_last();
        let x = s.last();
        let last = s.len() - 1;
        assert(s[last] == x);
        assert(distinct_ids(d)) by {
            assert forall|i: int, j: int| 0 <= i < j < d.len() implies (#[trigger] d[i]).id != (#[trigger] d[j]).id by {
                assert(d[i] == s[i] && d[j] == s[j]);
            }
        }
        lemma_by_name_after_inserts(d, n);
        if x.name != n {
            let md = after_inserts(d);
            let ms = after_inserts(s);
            if md.names.contains_key(n) {
                lemma_name_leads_to_inserted(d, n);
                let j = choose|j: int| 0 <= j < d.len() && (#[trigger] d[j]).id == md.names[n] && d[j].name == n;
                assert(d[j] == s[j]);
                assert(s[j].id != s[last].id);
                assert(ms.names[n] == md.names[n]);
                assert(ms.ids.contains_key(md.names[n]) == md.ids.contains_key(md.names[n]));
            } else {
                assert(!ms.names.contains_key(n));
            }
            assert(var_by_name(ms, n) == var_by_name(md, n));
        }
    }
}

/// After inserting variables with pairwise distinct ids into an empty
/// table, a name finds a variable exactly when one of them has that name,
/// and then it finds the last one inserted with that name.
pub proof fn law_get_by_name_after_inserts(s: Seq<VarInfoV>, n: Seq<char>)
    requires
        distinct_ids(s),
    ensures
        var_by_name(after_inserts(s), n) == last_named(s, n),
        (last_named(s, n) is Some) == (exists|i: int| 0 <= i < s.len() && (#[trigger] s[i]).name == n),
        last_named(s, n) matches Some(v) ==> exists|i: int|
            0 <= i < s.len() && #[trigger] s[i] == v && v.name == n && forall|j: int| i < j < s.len() ==> (#[trigger] s[j]).name != n,
{
    lemma_by_name_after_inserts(s, n);
    lemma_last_named(s, n);
}

/// Kind of a variable by its Entry `variableType`.
pub open spec fn kind_of_type(t: Seq<char>) -> VarKind {
    if t == "timer"@ {
        VarKind::Timer
    } else if t == "answer"@ {
        VarKind::Answer
    } else if t == "list"@ {
        VarKind::List
    } else if t == "cloud"@ {
        VarKind::Cloud
    } else if t == "realtime"@ || t == "realTime"@ || t == "real_time"@ || t == "isRealTime"@ {
        VarKind::RealTime
    } else if t == "variable"@ {
        VarKind::Variable
    } else {
        VarKind::Unknown
    }
}

/// Initial value of a variable of kind `k` with the Entry value `v`: a plain
/// variable holding a non-integer number starts as a decimal.
pub open spec fn init_of(k: VarKind, v: Option<JsonV>) -> VarInit {
    match (k, v) {
        (VarKind::Variable, Some(JsonV::Number(n))) => if crate::text::parsed_int(n) is Some {
            VarInit::Int0
        } else {
            VarInit::Float0
        },
        (VarKind::List, _) => VarInit::EmptyList,
        _ => VarInit::Int0,
    }
}

/// Whether the name is among `used`.
pub open spec fn is_used(used: Seq<Seq<char>>, n: Seq<char>) -> bool {
    exists|i: int| 0 <= i < used.len() && used[i] == n
}

/// The first of `p + n`, `p + (n+1)`, ... (up to `limit`) not in `used`.
pub open spec fn free_numbered(p: Seq<char>, used: Seq<Seq<char>>, n: nat, limit: nat) -> Seq<char>
    decreases limit - n,
{
    let c = p + crate::text::dec_text(n);
    if n >= limit || !is_used(used, c) {
        c
    } else {
        free_numbered(p, used, n + 1, limit)
    }
}

/// The source identifier for an Entry variable named `original`: its
/// sanitised form, or, when another variable already has it, that form
/// with a short hash of the name (and then a counter) appended.
pub open spec fn fresh_name(original: Seq<char>, used: Seq<Seq<char>>) -> Seq<char> {
    let base = crate::block::names::sanitized(original);
    let suffix = seq!['_'] + crate::text::hex_text(
        (crate::block::names::djb2(vstd::utf8::encode_utf8(original)) & 0xfff) as nat,
    );
    if !is_used(used, base) {
        base
    } else if !is_used(used, base + suffix) {
        base + suffix
    } else {
        free_numbered(base + suffix + seq!['_'], used, 1, used.len() + 1)
    }
}

/// The variable an Entry `variables` entry describes, given the names
/// already taken; `None` for an entry that is no object or has no id.
pub open spec fn var_entry(e: JsonV, used: Seq<Seq<char>>) -> Option<VarInfoV> {
    match e {
        JsonV::Object(_) => match jstr(jget(e, "id"@)) {
            None => None,
            Some(id) => {
                let original = match jstr(jget(e, "name"@)) {
                    Some(n) => n,
                    None => id,
                };
                let kind = kind_of_type(
                    match jstr(jget(e, "variableType"@)) {
                        Some(t) => t,
                        None => "variable"@,
                    },
                );
                Some(
                    VarInfoV {
                        id,
                        name: fresh_name(original, used),
                        original_name: original,
                        kind,
                        init: init_of(kind, jget(e, "value"@)),
                        scope: if jget(e, "object"@) == Some(JsonV::Null) {
                            VarScope::Global
                        } else {
                            VarScope::Local
                        },
                    },
                )
            },
        },
        _ => None,
    }
}

/// The variables of the entries, in order, with the names they took.
pub open spec fn var_entries(es: Seq<JsonV>) -> (Seq<VarInfoV>, Seq<Seq<char>>)
    decreases es.len(),
{
    if es.len() == 0 {
        (seq![], seq![])
    } else {
        let (infos, used) = var_entries(es.drop_last());
        match var_entry(es.last(), used) {
            Some(v) => (infos.push(v), used.push(v.name)),
            None => (infos, used),
        }
    }
}

/// Name-to-id pairs of a sequence of variables.
pub open spec fn name_pairs(s: Seq<VarInfoV>) -> Seq<(Seq<char>, Seq<char>)> {
    s.map_values(|v: VarInfoV| (v.name, v.id))
}

pub(crate) fn in_used(used: &Vec<String>, n: &str) -> (r: bool)
    ensures
        r == is_used(used@.map_values(|s: String| s@), n@),
{
    let ghost u = used@.map_values(|s: String| s@);
    let mut i: usize = 0;
    while i < used.len()
        invariant
            i <= used.len(),
            u == used@.map_values(|s: String| s@),
            forall|j: int| 0 <= j < i ==> u[j] != n@,
        decreases used.len() - i,
    {
        if crate::text::str_is(used[i].as_str(), n) {
            proof {
                assert(u[i as int] == n@);
            }
            return true;
        }
        i = i + 1;
    }
    false
}

pub(crate) fn fresh_name_of(original: &str, used: &Vec<String>) -> (r: String)
    requires
        used@.len() < usize::MAX,
    ensures
        r@ == fresh_name(original@, used@.map_values(|s: String| s@)),
{
    let ghost u = used@.map_values(|s: String| s@);
    let base = crate::block::names::sanitize_ident(original);
    if !in_used(used, base.as_str()) {
        return base;
    }
    let h = crate::block::names::djb2_of(original);
    let mut cand = base.clone();
    crate::text::push_char(&mut cand, '_');
    crate::text::push_str(&mut cand, crate::text::hex_string(h & 0xfff).as_str());
    proof {
        assert(cand@ =~= base@ + (seq!['_'] + crate::text::hex_text((h & 0xfff) as nat)));
    }
    if !in_used(used, cand.as_str()) {
        return cand;
    }
    let mut prefix = cand.clone();
    crate::text::push_char(&mut prefix, '_');
    let limit = used.len() + 1;
    let mut n: usize = 1;
    let ghost p = prefix@;
    proof {
        assert(p =~= base@ + (seq!['_'] + crate::text::hex_text((h & 0xfff) as nat)) + seq!['_']);
    }
    loop
        invariant
            1 <= n <= limit,
            limit == used@.len() + 1,
            u == used@.map_values(|s: String| s@),
            p == prefix@,
            free_numbered(p, u, n as nat, limit as nat) == fresh_name(original@, u),
        decreases limit - n,
    {
        let mut c = prefix.clone();
        crate::text::push_str(&mut c, crate::text::usize_string(n).as_str());
        if n >= limit || !in_used(used, c.as_str()) {
            return c;
        }
        n = n + 1;
    }
}

/// The variable table of a project's `variables` array: each variable
/// by its id, and its source identifier (made unique) leading to its id.
pub fn var_map_from_value(v: &Json) -> (r: VarMap)
    ensures
        v@ matches JsonV::Array(es) ==> r@.ids == entries_map(var_entries(es).0) && r@.names == pairs_map(
            name_pairs(var_entries(es).0),
        ),
        !(v@ is Array) ==> r@.ids == Map::<Seq<char>, VarInfoV>::empty() && r@.names == Map::<
            Seq<char>,
            Seq<char>,
        >::empty(),
{
    let mut map = VarMap::new();
    let arr = match v.as_array() {
        Some(a) => a,
        None => return map,
    };
    let ghost ev = crate::json::json_views(arr@);
    let mut used: Vec<String> = Vec::new();
    let mut i: usize = 0;
    proof {
        assert(ev.take(0) =~= Seq::<JsonV>::empty());
        assert(used@.map_values(|s: String| s@) =~= Seq::<Seq<char>>::empty());
        assert(name_pairs(Seq::<VarInfoV>::empty()) =~= Seq::<(Seq<char>, Seq<char>)>::empty());
    }
    while i < arr.len()
        invariant
            i <= arr.len(),
            ev == crate::json::json_views(arr@),
            used@.map_values(|s: String| s@) == var_entries(ev.take(i as int)).1,
            used@.len() <= i,
            map@.ids == entries_map(var_entries(ev.take(i as int)).0),
            map@.names == pairs_map(name_pairs(var_entries(ev.take(i as int)).0)),
        decreases arr.len() - i,
    {
        proof {
            assert(ev.take(i + 1).drop_last() =~= ev.take(i as int));
            assert(ev.take(i + 1).last() == arr@[i as int]@);
        }
        let e = &arr[i];
        if e.is_object() {
            if let Some(id) = crate::deparse::str_of_pub(e.get("id")) {
                let original = match crate::deparse::str_of_pub(e.get("name")) {
                    Some(n) => n,
                    None => id,
                };
                let name = fresh_name_of(original, &used);
                let t = match crate::deparse::str_of_pub(e.get("variableType")) {
                    Some(t) => t,
                    None => "variable",
                };
                let kind = kind_from_type(t);
                let init = match (kind, e.get("value")) {
                    (VarKind::Variable, Some(Json::Number(n))) => if crate::text::parse_i64(n.as_str()).is_some() {
                        VarInit::Int0
                    } else {
                        VarInit::Float0
                    },
                    (VarKind::List, _) => VarInit::EmptyList,
                    _ => VarInit::Int0,
                };
                let scope = match e.get("object") {
                    Some(Json::Null) => VarScope::Global,
                    _ => VarScope::Local,
                };
                let info = VarInfo {
                    id: id.to_owned(),
                    name: name.clone(),
                    original_name: original.to_owned(),
                    kind,
                    init,
                    scope,
                };
                let ghost iv = info@;
                let ghost ub = used@.map_values(|s: String| s@);
                let ghost prev = var_entries(ev.take(i as int)).0;
                map.insert(info);
                used.push(name);
                proof {
                    assert(used@.map_values(|s: String| s@) =~= ub.push(iv.name));
                    assert(name_pairs(prev.push(iv)) =~= name_pairs(prev).push((iv.name, iv.id)));
                    lemma_pairs_push(name_pairs(prev), iv.name, iv.id);
                    assert(prev.push(iv).drop_last() =~= prev);
                }
            }
        }
        i = i + 1;
    }
    proof {
        assert(ev.take(arr.len() as int) =~= ev);
    }
    map
}

fn kind_from_type(t: &str) -> (r: VarKind)
    ensures
        r == kind_of_type(t@),
{
    let is = |x: &str| -> (b: bool)
        ensures
            b == (t@ == x@),
        { crate::text::str_is(t, x) };
    if is("timer") {
        VarKind::Timer
    } else if is("answer") {
        VarKind::Answer
    } else if is("list") {
        VarKind::List
    } else if is("cloud") {
        VarKind::Cloud
    } else if is("realtime") || is("realTime") || is("real_time") || is("isRealTime") {
        VarKind::RealTime
    } else if is("variable") {
        VarKind::Variable
    } else {
        VarKind::Unknown
    }
}

/// `vs` lists every variable of the table once.
pub open spec fn lists_vars(vs: Seq<VarInfoV>, m: VarMapV) -> bool {
    &&& forall|i: int, j: int| 0 <= i < j < vs.len() ==> vs[i].id != vs[j].id
    &&& forall|i: int| 0 <= i < vs.len() ==> m.ids.contains_key(vs[i].id) && m.ids[vs[i].id] == vs[i]
    &&& forall|k: Seq<char>| m.ids.contains_key(k) ==> exists|i: int| 0 <= i < vs.len() && #[trigger] vs[i].id == k
}

pub open spec fn info_ref_views(v: Seq<&VarInfo>) -> Seq<VarInfoV> {
    v.map_values(|x: &VarInfo| x@)
}

} // verus!
