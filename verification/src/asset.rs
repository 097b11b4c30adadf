//! Pictures and sounds of each object, and objects, by name and by id.

use vstd::prelude::*;

use crate::json::{jarr, jget, jstr, Json, JsonV};
use crate::text::unicode_lower;
use crate::var::{lemma_pairs_push, pair_views, pairs_get, pairs_map};

verus! {

/// Model of a two-way table between names and ids.
pub struct NameIdV {
    pub by_name: Map<Seq<char>, Seq<char>>,
    pub by_id: Map<Seq<char>, Seq<char>>,
}

/// Model of one object's assets.
pub struct ObjectAssetsV {
    pub pictures: NameIdV,
    pub sounds: NameIdV,
}

/// Model of the asset table: assets by lower-cased object name, and the
/// objects' own names and ids.
pub struct AssetMapV {
    pub objects: Map<Seq<char>, ObjectAssetsV>,
    pub object_ids: NameIdV,
}

pub open spec fn empty_name_ids() -> NameIdV {
    NameIdV { by_name: Map::empty(), by_id: Map::empty() }
}

/// The `(id, name)` of a project entry that has both as strings.
pub open spec fn entry_pair(e: JsonV) -> Option<(Seq<char>, Seq<char>)> {
    match (jstr(jget(e, "id"@)), jstr(jget(e, "name"@))) {
        (Some(id), Some(name)) => Some((id, name)),
        _ => None,
    }
}

/// Names and ids of entries; a later entry replaces an earlier one.
pub open spec fn name_ids_of(entries: Seq<JsonV>) -> NameIdV
    decreases entries.len(),
{
    if entries.len() == 0 {
        empty_name_ids()
    } else {
        let prev = name_ids_of(entries.drop_last());
        match entry_pair(entries.last()) {
            Some((id, name)) => NameIdV { by_name: prev.by_name.insert(name, id), by_id: prev.by_id.insert(id, name) },
            None => prev,
        }
    }
}

/// Names and ids of an optional array of entries.
pub open spec fn name_ids_from(v: Option<JsonV>) -> NameIdV {
    match jarr(v) {
        Some(a) => name_ids_of(a),
        None => empty_name_ids(),
    }
}

/// Pictures and sounds of a project object.
pub open spec fn object_assets(o: JsonV) -> ObjectAssetsV {
    match jget(o, "sprite"@) {
        Some(sp) => ObjectAssetsV {
            pictures: name_ids_from(jget(sp, "pictures"@)),
            sounds: name_ids_from(jget(sp, "sounds"@)),
        },
        None => ObjectAssetsV { pictures: empty_name_ids(), sounds: empty_name_ids() },
    }
}

/// The asset table of the objects `objs`; an object without a name string
/// is skipped.
pub open spec fn assets_of(objs: Seq<JsonV>) -> AssetMapV
    decreases objs.len(),
{
    if objs.len() == 0 {
        AssetMapV { objects: Map::empty(), object_ids: empty_name_ids() }
    } else {
        let prev = assets_of(objs.drop_last());
        let o = objs.last();
        match jstr(jget(o, "name"@)) {
            None => prev,
            Some(name) => AssetMapV {
                objects: prev.objects.insert(unicode_lower(name), object_assets(o)),
                object_ids: match jstr(jget(o, "id"@)) {
                    Some(id) => NameIdV {
                        by_name: prev.object_ids.by_name.insert(name, id),
                        by_id: prev.object_ids.by_id.insert(id, name),
                    },
                    None => prev.object_ids,
                },
            },
        }
    }
}

/// The asset table of a project (`objects[].sprite.pictures/sounds`).
pub open spec fn project_assets(project: JsonV) -> AssetMapV {
    match jarr(jget(project, "objects"@)) {
        Some(objs) => assets_of(objs),
        None => AssetMapV { objects: Map::empty(), object_ids: empty_name_ids() },
    }
}

/// A lookup in a name or id table.
pub open spec fn lookup(m: Map<Seq<char>, Seq<char>>, k: Seq<char>) -> Option<Seq<char>> {
    if m.contains_key(k) {
        Some(m[k])
    } else {
        None
    }
}

/// The text of an optional string slice.
pub open spec fn str_opt(r: Option<&str>) -> Option<Seq<char>> {
    match r {
        Some(s) => Some(s@),
        None => None,
    }
}

/// `mouse` and `self` are Entry's own names for the pointer and the
/// current object: they stand for themselves as names and as ids.
pub open spec fn is_passthrough(s: Seq<char>) -> bool {
    s == "mouse"@ || s == "self"@
}

/// Whether `s` is one of Entry's own names, `mouse` or `self`.
fn passthrough_keyword(s: &str) -> (r: bool)
    ensures
        r == is_passthrough(s@),
{
    crate::text::str_is(s, "mouse") || crate::text::str_is(s, "self")
}

#[derive(Debug)]
struct NameIdMap {
    by_name: Vec<(String, String)>,
    by_id: Vec<(String, String)>,
}

impl View for NameIdMap {
    type V = NameIdV;

    closed spec fn view(&self) -> NameIdV {
        NameIdV { by_name: pairs_map(pair_views(self.by_name@)), by_id: pairs_map(pair_views(self.by_id@)) }
    }
}

#[derive(Debug)]
struct ObjectAssets {
    pictures: NameIdMap,
    sounds: NameIdMap,
}

impl View for ObjectAssets {
    type V = ObjectAssetsV;

    closed spec fn view(&self) -> ObjectAssetsV {
        ObjectAssetsV { pictures: self.pictures@, sounds: self.sounds@ }
    }
}

/// Objects by key, as the pairs `s` give them: a later pair hides an
/// earlier one.
pub open spec fn objects_map(s: Seq<(Seq<char>, ObjectAssetsV)>) -> Map<Seq<char>, ObjectAssetsV>
    decreases s.len(),
{
    if s.len() == 0 {
        Map::empty()
    } else {
        objects_map(s.drop_last()).insert(s.last().0, s.last().1)
    }
}

/// Pictures and sounds of each object, and the objects' names and ids.
#[derive(Debug)]
pub struct AssetMap {
    objects: Vec<(String, ObjectAssets)>,
    object_ids: NameIdMap,
}

impl View for AssetMap {
    type V = AssetMapV;

    closed spec fn view(&self) -> AssetMapV {
        AssetMapV {
            objects: objects_map(self.objects@.map_values(|p: (String, ObjectAssets)| (p.0@, p.1@))),
            object_ids: self.object_ids@,
        }
    }
}

impl NameIdMap {
    fn empty() -> (r: NameIdMap)
        ensures
            r@ == empty_name_ids(),
    {
        let r = NameIdMap { by_name: Vec::new(), by_id: Vec::new() };
        proof {
            assert(pair_views(r.by_name@) =~= Seq::<(Seq<char>, Seq<char>)>::empty());
            assert(pair_views(r.by_id@) =~= Seq::<(Seq<char>, Seq<char>)>::empty());
        }
        r
    }

    fn add(&mut self, name: &str, id: &str)
        ensures
            final(self)@.by_name == old(self)@.by_name.insert(name@, id@),
            final(self)@.by_id == old(self)@.by_id.insert(id@, name@),
    {
        let ghost a = pair_views(self.by_name@);
        let ghost b = pair_views(self.by_id@);
        self.by_name.push((name.to_owned(), id.to_owned()));
        self.by_id.push((id.to_owned(), name.to_owned()));
        proof {
            assert(pair_views(self.by_name@) =~= a.push((name@, id@)));
            assert(pair_views(self.by_id@) =~= b.push((id@, name@)));
            lemma_pairs_push(a, name@, id@);
            lemma_pairs_push(b, id@, name@);
        }
    }

    /// Names and ids of the entries of an optional array.
    fn from_entries(value: Option<&Json>) -> (r: NameIdMap)
        ensures
            r@ == name_ids_from(crate::deparse::opt_view(value)),
    {
        let mut map = NameIdMap::empty();
        let entries = match value {
            Some(v) => match v.as_array() {
                Some(a) => a,
                None => return map,
            },
            None => return map,
        };
        let ghost ev = crate::json::json_views(entries@);
        let mut i: usize = 0;
        while i < entries.len()
            invariant
                i <= entries.len(),
                ev == crate::json::json_views(entries@),
                map@ == name_ids_of(ev.take(i as int)),
            decreases entries.len() - i,
        {
            proof {
                assert(ev.take(i + 1).drop_last() =~= ev.take(i as int));
                assert(ev.take(i + 1).last() == entries@[i as int]@);
            }
            let e = &entries[i];
            match (crate::deparse::str_of_pub(e.get("id")), crate::deparse::str_of_pub(e.get("name"))) {
                (Some(id), Some(name)) => map.add(name, id),
                _ => {},
            }
            i = i + 1;
        }
        proof {
            assert(ev.take(entries.len() as int) =~= ev);
        }
        map
    }
}

impl Default for AssetMap {
    /// A table with no objects.
    fn default() -> (r: AssetMap)
        ensures
            r@.objects == Map::<Seq<char>, ObjectAssetsV>::empty(),
            r@.object_ids == empty_name_ids(),
    {
        let r = AssetMap { objects: Vec::new(), object_ids: NameIdMap::empty() };
        proof {
            assert(r.objects@.map_values(|p: (String, ObjectAssets)| (p.0@, p.1@)) =~= Seq::<
                (Seq<char>, ObjectAssetsV),
            >::empty());
        }
        r
    }
}

impl AssetMap {
    /// Reads `objects[].sprite.pictures/sounds` of a project; objects are
    /// found by their name, lower-cased.
    pub fn from_project_value(project: &Json) -> (r: AssetMap)
        ensures
            r@ == project_assets(project@),
    {
        let mut map = AssetMap::default();
        let objects = match project.get("objects") {
            Some(o) => match o.as_array() {
                Some(a) => a,
                None => return map,
            },
            None => return map,
        };
        let ghost ov = crate::json::json_views(objects@);
        let mut i: usize = 0;
        proof {
            assert(ov.take(0) =~= Seq::<JsonV>::empty());
        }
        while i < objects.len()
            invariant
                i <= objects.len(),
                ov == crate::json::json_views(objects@),
                map@ == assets_of(ov.take(i as int)),
            decreases objects.len() - i,
        {
            proof {
                assert(ov.take(i + 1).drop_last() =~= ov.take(i as int));
                assert(ov.take(i + 1).last() == objects@[i as int]@);
            }
            let object = &objects[i];
            if let Some(name) = crate::deparse::str_of_pub(object.get("name")) {
                let sprite = object.get("sprite");
                let assets = match sprite {
                    Some(sp) => ObjectAssets {
                        pictures: NameIdMap::from_entries(sp.get("pictures")),
                        sounds: NameIdMap::from_entries(sp.get("sounds")),
                    },
                    None => ObjectAssets { pictures: NameIdMap::empty(), sounds: NameIdMap::empty() },
                };
                let ghost before = self_objects(&map);
                map.objects.push((crate::text::to_lowercase(name), assets));
                proof {
                    assert(self_objects(&map).drop_last() =~= before);
                }
                if let Some(id) = crate::deparse::str_of_pub(object.get("id")) {
                    map.object_ids.add(name, id);
                }
            }
            i = i + 1;
        }
        proof {
            assert(ov.take(objects.len() as int) =~= ov);
        }
        map
    }

    fn assets_of_object(&self, object: &str) -> (r: Option<&ObjectAssets>)
        ensures
            r matches Some(a) ==> self@.objects.contains_key(unicode_lower(object@)) && a@ == self@.objects[unicode_lower(object@)],
            r is None ==> !self@.objects.contains_key(unicode_lower(object@)),
    {
        let key = crate::text::to_lowercase(object);
        let ghost s = self_objects(self);
        let mut i: usize = self.objects.len();
        while i > 0
            invariant
                i <= self.objects.len(),
                s == self_objects(self),
                key@ == unicode_lower(object@),
                forall|j: int| i <= j < s.len() ==> s[j].0 != key@,
            decreases i,
        {
            if crate::text::str_is(self.objects[i - 1].0.as_str(), key.as_str()) {
                proof {
                    lemma_objects_prefix(s, i as int, key@);
                    assert(s.take(i as int).drop_last() =~= s.take(i - 1));
                    assert(s[i - 1] == (self.objects@[i - 1].0@, self.objects@[i - 1].1@));
                    assert(s.take(i as int).last() == s[i - 1]);
                }
                return Some(&self.objects[i - 1].1);
            }
            i = i - 1;
        }
        proof {
            lemma_objects_prefix(s, 0, key@);
            assert(s.take(0) =~= Seq::<(Seq<char>, ObjectAssetsV)>::empty());
        }
        None
    }

    /// The id of picture `name` of `object`.
    pub fn picture_id_by_name(&self, object: &str, name: &str) -> (r: Option<&str>)
        ensures
            str_opt(r) == (if self@.objects.contains_key(unicode_lower(object@)) {
                lookup(self@.objects[unicode_lower(object@)].pictures.by_name, name@)
            } else {
                None
            }),
    {
        match self.assets_of_object(object) {
            Some(a) => pairs_get(&a.pictures.by_name, name),
            None => None,
        }
    }

    /// The name of picture `id` of `object`.
    pub fn picture_name_by_id(&self, object: &str, id: &str) -> (r: Option<&str>)
        ensures
            str_opt(r) == (if self@.objects.contains_key(unicode_lower(object@)) {
                lookup(self@.objects[unicode_lower(object@)].pictures.by_id, id@)
            } else {
                None
            }),
    {
        match self.assets_of_object(object) {
            Some(a) => pairs_get(&a.pictures.by_id, id),
            None => None,
        }
    }

    /// The id of sound `name` of `object`.
    pub fn sound_id_by_name(&self, object: &str, name: &str) -> (r: Option<&str>)
        ensures
            str_opt(r) == (if self@.objects.contains_key(unicode_lower(object@)) {
                lookup(self@.objects[unicode_lower(object@)].sounds.by_name, name@)
            } else {
                None
            }),
    {
        match self.assets_of_object(object) {
            Some(a) => pairs_get(&a.sounds.by_name, name),
            None => None,
        }
    }

    /// The name of sound `id` of `object`.
    pub fn sound_name_by_id(&self, object: &str, id: &str) -> (r: Option<&str>)
        ensures
            str_opt(r) == (if self@.objects.contains_key(unicode_lower(object@)) {
                lookup(self@.objects[unicode_lower(object@)].sounds.by_id, id@)
            } else {
                None
            }),
    {
        match self.assets_of_object(object) {
            Some(a) => pairs_get(&a.sounds.by_id, id),
            None => None,
        }
    }

    /// The id of the object named `name`; `mouse` and `self` are their own ids.
    pub fn object_id_by_name<'a>(&'a self, name: &'a str) -> (r: Option<&'a str>)
        ensures
            str_opt(r) == (if is_passthrough(name@) {
                Some(name@)
            } else {
                lookup(self@.object_ids.by_name, name@)
            }),
    {
        if passthrough_keyword(name) {
            return Some(name);
        }
        pairs_get(&self.object_ids.by_name, name)
    }

    /// The name of the object with id `id`; `mouse` and `self` are their own names.
    pub fn object_name_by_id<'a>(&'a self, id: &'a str) -> (r: Option<&'a str>)
        ensures
            str_opt(r) == (if is_passthrough(id@) {
                Some(id@)
            } else {
                lookup(self@.object_ids.by_id, id@)
            }),
    {
        if passthrough_keyword(id) {
            return Some(id);
        }
        pairs_get(&self.object_ids.by_id, id)
    }
}

/// The id of the last entry named `n` (that has an id and a name).
pub open spec fn last_id_named(entries: Seq<JsonV>, n: Seq<char>) -> Option<Seq<char>>
    decreases entries.len(),
{
    if entries.len() == 0 {
        None
    } else {
        match entry_pair(entries.last()) {
            Some((id, name)) => if name == n {
                Some(id)
            } else {
                last_id_named(entries.drop_last(), n)
            },
            None => last_id_named(entries.drop_last(), n),
        }
    }
}

/// The name of the last entry with id `i` (that has an id and a name).
pub open spec fn last_name_with_id(entries: Seq<JsonV>, i: Seq<char>) -> Option<Seq<char>>
    decreases entries.len(),
{
    if entries.len() == 0 {
        None
    } else {
        match entry_pair(entries.last()) {
            Some((id, name)) => if id == i {
                Some(name)
            } else {
                last_name_with_id(entries.drop_last(), i)
            },
            None => last_name_with_id(entries.drop_last(), i),
        }
    }
}

/// The id of an entry that has an id and a name.
pub open spec fn entry_id(e: JsonV) -> Seq<char> {
    match entry_pair(e) {
        Some(p) => p.0,
        None => Seq::empty(),
    }
}

/// The name of an entry that has an id and a name.
pub open spec fn entry_name(e: JsonV) -> Seq<char> {
    match entry_pair(e) {
        Some(p) => p.1,
        None => Seq::empty(),
    }
}

/// No two entries that have an id and a name share either.
pub open spec fn pairs_distinct(entries: Seq<JsonV>) -> bool {
    forall|i: int, j: int|
        0 <= i < j < entries.len() && (#[trigger] entry_pair(entries[i])) is Some && (#[trigger] entry_pair(entries[j])) is Some
            ==> entry_id(entries[i]) != entry_id(entries[j]) && entry_name(entries[i]) != entry_name(
            entries[j],
        )
}

/// A name leads to the id of the last entry with that name, and an id to
/// the name of the last entry with that id; an entry without an id or a
/// name string is passed over.
pub proof fn law_name_ids_last_wins(entries: Seq<JsonV>, n: Seq<char>)
    ensures
        lookup(name_ids_of(entries).by_name, n) == last_id_named(entries, n),
        lookup(name_ids_of(entries).by_id, n) == last_name_with_id(entries, n),
    decreases entries.len(),
{
    if entries.len() > 0 {
        law_name_ids_last_wins(entries.drop_last(), n);
    }
}

/// Where no two entries share an id or a name, the name and id tables
/// invert each other on every entry.
pub proof fn law_name_ids_invert(entries: Seq<JsonV>, i: int)
    requires
        0 <= i < entries.len(),
        entry_pair(entries[i]) is Some,
        pairs_distinct(entries),
    ensures
        lookup(name_ids_of(entries).by_id, entry_id(entries[i])) == Some(entry_name(entries[i])),
        lookup(name_ids_of(entries).by_name, entry_name(entries[i])) == Some(entry_id(entries[i])),
    decreases entries.len(),
{
    let d = entries.drop_last();
    let last = entries.len() - 1;
    if i < last {
        assert(d[i] == entries[i]);
        assert(pairs_distinct(d)) by {
            assert forall|a: int, b: int|
                0 <= a < b < d.len() && (#[trigger] entry_pair(d[a])) is Some && (#[trigger] entry_pair(d[b])) is Some implies entry_id(
                d[a],
            ) != entry_id(d[b]) && entry_name(d[a]) != entry_name(d[b]) by {
                assert(d[a] == entries[a] && d[b] == entries[b]);
            }
        }
        law_name_ids_invert(d, i);
        assert(entries.last() == entries[last]);
        if entry_pair(entries[last]) is Some {
            assert(entry_pair(entries[i]) is Some && entry_pair(entries[last]) is Some);
        }
    } else {
        assert(entries.last() == entries[i]);
    }
}

/// The objects' name and id tables are those of the objects that have a
/// name and an id string.
proof fn lemma_object_ids(objs: Seq<JsonV>)
    ensures
        assets_of(objs).object_ids == name_ids_of(objs),
    decreases objs.len(),
{
    if objs.len() > 0 {
        lemma_object_ids(objs.drop_last());
    }
}

/// In a project's asset table, an object name leads to the id of the last
/// object with exactly that name, and an id to the name of the last object
/// with that id.
pub proof fn law_object_ids_last_wins(objs: Seq<JsonV>, n: Seq<char>)
    ensures
        lookup(assets_of(objs).object_ids.by_name, n) == last_id_named(objs, n),
        lookup(assets_of(objs).object_ids.by_id, n) == last_name_with_id(objs, n),
{
    lemma_object_ids(objs);
    law_name_ids_last_wins(objs, n);
}

/// Where no two objects share a name or an id, the object name and id
/// lookups invert each other on every object.
pub proof fn law_object_ids_invert(objs: Seq<JsonV>, k: int)
    requires
        0 <= k < objs.len(),
        entry_pair(objs[k]) is Some,
        pairs_distinct(objs),
    ensures
        lookup(assets_of(objs).object_ids.by_id, entry_id(objs[k])) == Some(entry_name(objs[k])),
        lookup(assets_of(objs).object_ids.by_name, entry_name(objs[k])) == Some(entry_id(objs[k])),
{
    lemma_object_ids(objs);
    law_name_ids_invert(objs, k);
}

/// The object's name, if it has one, differs from `n` ignoring case.
pub open spec fn name_differs(o: JsonV, n: Seq<char>) -> bool {
    match jstr(jget(o, "name"@)) {
        Some(m) => unicode_lower(m) != unicode_lower(n),
        None => true,
    }
}

/// An object is found (by its name, lower-cased) with its own pictures
/// and sounds when no later object has the same lower-cased name.
proof fn lemma_object_found(objs: Seq<JsonV>, k: int, n: Seq<char>)
    requires
        0 <= k < objs.len(),
        jstr(jget(objs[k], "name"@)) == Some(n),
        forall|j: int| k < j < objs.len() ==> #[trigger] name_differs(objs[j], n),
    ensures
        assets_of(objs).objects.contains_key(unicode_lower(n)),
        assets_of(objs).objects[unicode_lower(n)] == object_assets(objs[k]),
    decreases objs.len(),
{
    let last = objs.len() - 1;
    assert(objs.last() == objs[last]);
    if k < last {
        let d = objs.drop_last();
        assert(d[k] == objs[k]);
        assert forall|j: int| k < j < d.len() implies #[trigger] name_differs(d[j], n) by {
            assert(d[j] == objs[j]);
            assert(name_differs(objs[j], n));
        }
        lemma_object_found(d, k, n);
        assert(name_differs(objs[last], n));
    }
}

/// Where no two pictures of an object share an id or a name, and no later
/// object has the same name ignoring case, picture names and ids of that
/// object invert each other in the project's asset table.
pub proof fn law_picture_ids_invert(objs: Seq<JsonV>, k: int, sprite: JsonV, pictures: Seq<JsonV>, i: int)
    requires
        0 <= k < objs.len(),
        jstr(jget(objs[k], "name"@)) is Some,
        forall|j: int| k < j < objs.len() ==> #[trigger] name_differs(objs[j], jstr(jget(objs[k], "name"@))->0),
        jget(objs[k], "sprite"@) == Some(sprite),
        jarr(jget(sprite, "pictures"@)) == Some(pictures),
        0 <= i < pictures.len(),
        entry_pair(pictures[i]) is Some,
        pairs_distinct(pictures),
    ensures
        ({
            let key = unicode_lower(jstr(jget(objs[k], "name"@))->0);
            let id = entry_id(pictures[i]);
            let name = entry_name(pictures[i]);
            &&& assets_of(objs).objects.contains_key(key)
            &&& lookup(assets_of(objs).objects[key].pictures.by_id, id) == Some(name)
            &&& lookup(assets_of(objs).objects[key].pictures.by_name, name) == Some(id)
        }),
{
    lemma_object_found(objs, k, jstr(jget(objs[k], "name"@))->0);
    law_name_ids_invert(pictures, i);
}

/// The object pairs of a table, by their models.
spec fn self_objects(m: &AssetMap) -> Seq<(Seq<char>, ObjectAssetsV)> {
    m.objects@.map_values(|p: (String, ObjectAssets)| (p.0@, p.1@))
}

proof fn lemma_objects_prefix(s: Seq<(Seq<char>, ObjectAssetsV)>, i: int, k: Seq<char>)
    requires
        0 <= i <= s.len(),
        forall|j: int| i <= j < s.len() ==> s[j].0 != k,
    ensures
        objects_map(s).contains_key(k) == objects_map(s.take(i)).contains_key(k),
        objects_map(s).contains_key(k) ==> objects_map(s)[k] == objects_map(s.take(i))[k],
    decreases s.len(),
{
    if s.len() == i {
        assert(s.take(i) =~= s);
    } else {
        lemma_objects_prefix(s.drop_last(), i, k);
        assert(s.drop_last().take(i) =~= s.take(i));
    }
}

} // verus!
