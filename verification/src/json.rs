//! JSON documents as the library holds them.
//!
//! A number keeps the text it was written with, so nothing is lost between
//! reading a project and writing it back.

use vstd::prelude::*;

verus! {

/// A JSON document. Object members keep their order.
#[derive(Debug)]
pub enum Json {
    Null,
    Bool(bool),
    /// A number, by its JSON text (such as `42` or `0.5`).
    Number(String),
    Str(String),
    Array(Vec<Json>),
    Object(Vec<(String, Json)>),
}

/// Mathematical model of a JSON document.
pub enum JsonV {
    Null,
    Bool(bool),
    Number(Seq<char>),
    Str(Seq<char>),
    Array(Seq<JsonV>),
    Object(Seq<(Seq<char>, JsonV)>),
}

impl View for Json {
    type V = JsonV;

    open spec fn view(&self) -> JsonV {
        self.view_rec()
    }
}

impl Json {
    pub open spec fn view_rec(&self) -> JsonV
        decreases self,
    {
        match self {
            Json::Null => JsonV::Null,
            Json::Bool(b) => JsonV::Bool(*b),
            Json::Number(n) => JsonV::Number(n@),
            Json::Str(s) => JsonV::Str(s@),
            Json::Array(v) => JsonV::Array(
                Seq::new(
                    v.len() as nat,
                    |i: int|
                        if 0 <= i < v.len() {
                            proof {
                                vstd::std_specs::vec::axiom_vec_index_decreases(*v, i);
                            }
                            v[i].view_rec()
                        } else {
                            JsonV::Null
                        },
                ),
            ),
            Json::Object(v) => JsonV::Object(
                Seq::new(
                    v@.len(),
                    |i: int|
                        if 0 <= i < v@.len() {
                            proof {
                                vstd::std_specs::vec::axiom_vec_index_decreases(*v, i);
                            }
                            (v@[i].0@, v@[i].1.view_rec())
                        } else {
                            (Seq::empty(), JsonV::Null)
                        },
                ),
            ),
        }
    }
}

/// Models of a sequence of documents.
pub open spec fn json_views(v: Seq<Json>) -> Seq<JsonV> {
    v.map_values(|j: Json| j@)
}

/// Models of a sequence of object members.
pub open spec fn member_views(v: Seq<(String, Json)>) -> Seq<(Seq<char>, JsonV)> {
    v.map_values(|m: (String, Json)| (m.0@, m.1@))
}

pub proof fn lemma_array_view(v: Vec<Json>)
    ensures
        Json::Array(v)@ == JsonV::Array(json_views(v@)),
{
    assert(Json::Array(v)@->Array_0 =~= json_views(v@));
}

pub proof fn lemma_object_view(v: Vec<(String, Json)>)
    ensures
        Json::Object(v)@ == JsonV::Object(member_views(v@)),
{
    let j = Json::Object(v);
    assert(j@ is Object);
    let a = j@->Object_0;
    assert(a.len() == v.len());
    assert forall|i: int| 0 <= i < v.len() implies #[trigger] a[i] == member_views(v@)[i] by {
        let x = a[i];
        assert(x.0 == v[i].0@);
        assert(x.1 == v[i].1@);
    }
    assert(a =~= member_views(v@));
}

/// First member of `members` named `key`.
pub open spec fn assoc(members: Seq<(Seq<char>, JsonV)>, key: Seq<char>) -> Option<JsonV>
    decreases members.len(),
{
    if members.len() == 0 {
        None
    } else if members[0].0 == key {
        Some(members[0].1)
    } else {
        assoc(members.drop_first(), key)
    }
}

/// Member `key` of an object (the first one of that name); `None` for
/// anything that is not an object or has no such member.
pub open spec fn jget(j: JsonV, key: Seq<char>) -> Option<JsonV> {
    match j {
        JsonV::Object(m) => assoc(m, key),
        _ => None,
    }
}

/// Element `i` of an array; `None` outside the array or for a non-array.
pub open spec fn jat(j: JsonV, i: int) -> Option<JsonV> {
    match j {
        JsonV::Array(a) => if 0 <= i < a.len() { Some(a[i]) } else { None },
        _ => None,
    }
}

/// Text of a JSON string.
pub open spec fn jstr(j: Option<JsonV>) -> Option<Seq<char>> {
    match j {
        Some(JsonV::Str(s)) => Some(s),
        _ => None,
    }
}

/// Elements of a JSON array.
pub open spec fn jarr(j: Option<JsonV>) -> Option<Seq<JsonV>> {
    match j {
        Some(JsonV::Array(a)) => Some(a),
        _ => None,
    }
}

/// Value of a JSON boolean.
pub open spec fn jbool(j: Option<JsonV>) -> Option<bool> {
    match j {
        Some(JsonV::Bool(b)) => Some(b),
        _ => None,
    }
}

proof fn lemma_assoc_index(m: Seq<(Seq<char>, JsonV)>, key: Seq<char>, i: int)
    requires
        0 <= i < m.len(),
        m[i].0 == key,
        forall|j: int| 0 <= j < i ==> m[j].0 != key,
    ensures
        assoc(m, key) == Some(m[i].1),
    decreases i,
{
    if i > 0 {
        lemma_assoc_index(m.drop_first(), key, i - 1);
    }
}

proof fn lemma_assoc_none(m: Seq<(Seq<char>, JsonV)>, key: Seq<char>)
    requires
        forall|j: int| 0 <= j < m.len() ==> m[j].0 != key,
    ensures
        assoc(m, key) is None,
    decreases m.len(),
{
    if m.len() > 0 {
        lemma_assoc_none(m.drop_first(), key);
    }
}

impl Json {
    /// A JSON string holding `s`.
    pub fn text(s: &str) -> (r: Json)
        ensures
            r@ == JsonV::Str(s@),
    {
        Json::Str(s.to_owned())
    }

    /// Member `key` of an object (the first of that name).
    pub fn get(&self, key: &str) -> (r: Option<&Json>)
        ensures
            r matches Some(v) ==> jget(self@, key@) == Some(v@),
            r is None ==> jget(self@, key@) is None,
    {
        match self {
            Json::Object(members) => {
                proof {
                    lemma_object_view(*members);
                }
                let ghost m = member_views(members@);
                let mut i: usize = 0;
                while i < members.len()
                    invariant
                        i <= members.len(),
                        m == member_views(members@),
                        self@ == JsonV::Object(m),
                        forall|j: int| 0 <= j < i ==> m[j].0 != key@,
                    decreases members.len() - i,
                {
                    if crate::text::str_is(members[i].0.as_str(), key) {
                        proof {
                            assert(m[i as int] == (members@[i as int].0@, members@[i as int].1@));
                            lemma_assoc_index(m, key@, i as int);
                        }
                        return Some(&members[i].1);
                    }
                    i = i + 1;
                }
                proof {
                    lemma_assoc_none(m, key@);
                }
                None
            },
            _ => None,
        }
    }

    /// Element `i` of an array.
    pub fn at(&self, i: usize) -> (r: Option<&Json>)
        ensures
            r matches Some(v) ==> jat(self@, i as int) == Some(v@),
            r is None ==> jat(self@, i as int) is None,
    {
        match self {
            Json::Array(items) => {
                proof {
                    lemma_array_view(*items);
                }
                if i < items.len() {
                    Some(&items[i])
                } else {
                    None
                }
            },
            _ => None,
        }
    }

    /// Text of a JSON string.
    pub fn as_str(&self) -> (r: Option<&str>)
        ensures
            r matches Some(s) ==> self@ == JsonV::Str(s@),
            r is None ==> !(self@ is Str),
    {
        match self {
            Json::Str(s) => Some(s.as_str()),
            _ => None,
        }
    }

    /// Elements of a JSON array.
    pub fn as_array(&self) -> (r: Option<&Vec<Json>>)
        ensures
            r matches Some(a) ==> self@ == JsonV::Array(json_views(a@)),
            r is None ==> !(self@ is Array),
    {
        match self {
            Json::Array(a) => {
                proof {
                    lemma_array_view(*a);
                }
                Some(a)
            },
            _ => None,
        }
    }

    /// Value of a JSON boolean.
    pub fn as_bool(&self) -> (r: Option<bool>)
        ensures
            r matches Some(b) ==> self@ == JsonV::Bool(b),
            r is None ==> !(self@ is Bool),
    {
        match self {
            Json::Bool(b) => Some(*b),
            _ => None,
        }
    }

    pub fn is_null(&self) -> (r: bool)
        ensures
            r == (self@ is Null),
    {
        match self {
            Json::Null => true,
            _ => false,
        }
    }

    pub fn is_object(&self) -> (r: bool)
        ensures
            r == (self@ is Object),
    {
        match self {
            Json::Object(_) => true,
            _ => false,
        }
    }
}

impl Json {
    /// An independent copy of the document.
    #[verifier::loop_isolation(false)]
    pub fn duplicate(&self) -> (r: Json)
        ensures
            r@ == self@,
        decreases self,
    {
        match self {
            Json::Null => Json::Null,
            Json::Bool(b) => Json::Bool(*b),
            Json::Number(n) => Json::Number(n.clone()),
            Json::Str(s) => Json::Str(s.clone()),
            Json::Array(items) => {
                let mut out: Vec<Json> = Vec::new();
                let mut i: usize = 0;
                while i < items.len()
                    invariant
                        i <= items.len(),
                        out@.len() == i,
                        forall|k: int| 0 <= k < i ==> out@[k]@ == items@[k]@,
                    decreases items.len() - i,
                {
                    proof {
                        vstd::std_specs::vec::axiom_vec_index_decreases(*items, i as int);
                        assert(*self == Json::Array(*items));
                        assert(decreases_to!(*self => *items));
                    }
                    out.push(items[i].duplicate());
                    i = i + 1;
                }
                proof {
                    lemma_array_view(*items);
                    lemma_array_view(out);
                    assert(json_views(out@) =~= json_views(items@));
                }
                Json::Array(out)
            },
            Json::Object(members) => {
                let mut out: Vec<(String, Json)> = Vec::new();
                let mut i: usize = 0;
                while i < members.len()
                    invariant
                        i <= members.len(),
                        out@.len() == i,
                        forall|k: int| 0 <= k < i ==> out@[k].0@ == members@[k].0@ && out@[k].1@ == members@[k].1@,
                    decreases members.len() - i,
                {
                    proof {
                        vstd::std_specs::vec::axiom_vec_index_decreases(*members, i as int);
                        assert(*self == Json::Object(*members));
                        assert(decreases_to!(*self => *members));
                    }
                    let v = members[i].1.duplicate();
                    out.push((members[i].0.clone(), v));
                    i = i + 1;
                }
                proof {
                    lemma_object_view(*members);
                    lemma_object_view(out);
                    assert(member_views(out@) =~= member_views(members@));
                }
                Json::Object(out)
            },
        }
    }
}

/// Builds a JSON array.
pub fn array_of(v: Vec<Json>) -> (r: Json)
    ensures
        r@ == JsonV::Array(json_views(v@)),
{
    proof {
        lemma_array_view(v);
    }
    Json::Array(v)
}

/// Builds a JSON object.
pub fn object_of(v: Vec<(String, Json)>) -> (r: Json)
    ensures
        r@ == JsonV::Object(member_views(v@)),
{
    proof {
        lemma_object_view(v);
    }
    Json::Object(v)
}

// ---------------------------------------------------------------------------
// Changing members
// ---------------------------------------------------------------------------

/// An object with member `key` set to `val`: every member of that name gets
/// the value, and a missing member is added at the end. `null` becomes an
/// object with that one member.
pub open spec fn jset(o: JsonV, key: Seq<char>, val: JsonV) -> JsonV {
    match o {
        JsonV::Object(m) => if exists|i: int| 0 <= i < m.len() && m[i].0 == key {
            JsonV::Object(Seq::new(m.len(), |i: int| if m[i].0 == key { (key, val) } else { m[i] }))
        } else {
            JsonV::Object(m.push((key, val)))
        },
        _ => JsonV::Object(seq![(key, val)]),
    }
}

/// An object without its members named `key`; anything else unchanged.
pub open spec fn jremove(o: JsonV, key: Seq<char>) -> JsonV {
    match o {
        JsonV::Object(m) => JsonV::Object(m.filter(|p: (Seq<char>, JsonV)| p.0 != key)),
        _ => o,
    }
}

/// The document with member `key` set to `val` (see `jset`).
pub fn with_member(j: Json, key: &str, val: Json) -> (r: Json)
    requires
        j@ is Object || j@ is Null,
    ensures
        r@ == jset(j@, key@, val@),
{
    let ghost vv = val@;
    let ghost jv = j@;
    match j {
        Json::Object(members) => {
            let ghost m0 = member_views(members@);
            proof {
                lemma_object_view(members);
            }
            let mut rest = members;
            let mut out: Vec<(String, Json)> = Vec::new();
            let mut found = false;
            let ghost n = m0.len();
            while rest.len() > 0
                invariant
                    n == m0.len(),
                    out@.len() + rest@.len() == n,
                    member_views(rest@) == m0.skip(out@.len() as int),
                    vv == val@,
                    found == exists|q: int| 0 <= q < out@.len() && m0[q].0 == key@,
                    forall|q: int| 0 <= q < out@.len() ==> #[trigger] member_views(out@)[q] == if m0[q].0 == key@ {
                        (key@, vv)
                    } else {
                        m0[q]
                    },
                decreases rest@.len(),
            {
                let ghost k = out@.len() as int;
                let ghost old_rest = rest@;
                proof {
                    assert(member_views(rest@)[0] == m0[k]);
                }
                let (name, v) = rest.remove(0);
                proof {
                    assert forall|q: int| 0 <= q < rest@.len() implies #[trigger] member_views(rest@)[q] == m0.skip(k + 1)[q] by {
                        assert(rest@[q] == old_rest[q + 1]);
                        assert(member_views(old_rest)[q + 1] == m0.skip(k)[q + 1]);
                    }
                    assert(member_views(rest@) =~= m0.skip(k + 1));
                }
                let ghost before = member_views(out@);
                if crate::text::str_is(name.as_str(), key) {
                    out.push((name, val.duplicate()));
                    found = true;
                } else {
                    out.push((name, v));
                }
                proof {
                    assert(member_views(out@).drop_last() =~= before);
                    assert forall|q: int| 0 <= q < out@.len() implies #[trigger] member_views(out@)[q] == if m0[q].0 == key@ {
                        (key@, vv)
                    } else {
                        m0[q]
                    } by {
                        if q < k {
                            assert(member_views(out@)[q] == before[q]);
                        }
                    }
                    if !found {
                        assert forall|q: int| 0 <= q < out@.len() implies m0[q].0 != key@ by {
                            if q < k {
                            }
                        }
                    }
                }
            }
            if !found {
                let ghost before = member_views(out@);
                out.push((key.to_owned(), val));
                proof {
                    assert(before =~= m0);
                    assert(member_views(out@) =~= m0.push((key@, vv)));
                }
            } else {
                proof {
                    assert(member_views(out@) =~= Seq::new(m0.len(), |q: int| if m0[q].0 == key@ { (key@, vv) } else { m0[q] }));
                }
            }
            proof {
                lemma_object_view(out);
            }
            Json::Object(out)
        },
        _ => {
            let mut v: Vec<(String, Json)> = Vec::new();
            v.push((key.to_owned(), val));
            proof {
                lemma_object_view(v);
                assert(member_views(v@) =~= seq![(key@, vv)]);
            }
            Json::Object(v)
        },
    }
}

/// The document without its members named `key` (see `jremove`).
pub fn without_member(j: Json, key: &str) -> (r: Json)
    ensures
        r@ == jremove(j@, key@),
{
    match j {
        Json::Object(members) => {
            let ghost m0 = member_views(members@);
            proof {
                lemma_object_view(members);
            }
            let mut rest = members;
            let mut kept: Vec<(String, Json)> = Vec::new();
            let mut i: usize = 0;
            let total = rest.len();
            proof {
                assert(member_views(kept@) =~= m0.take(0).filter(|p: (Seq<char>, JsonV)| p.0 != key@));
                assert(m0.skip(0) =~= m0);
            }
            while rest.len() > 0
                invariant
                    i <= m0.len(),
                    total == m0.len(),
                    rest@.len() == m0.len() - i,
                    member_views(rest@) == m0.skip(i as int),
                    member_views(kept@) == m0.take(i as int).filter(|p: (Seq<char>, JsonV)| p.0 != key@),
                decreases rest@.len(),
            {
                let ghost old_rest = rest@;
                proof {
                    assert(member_views(rest@)[0] == m0[i as int]);
                }
                let (k, v) = rest.remove(0);
                proof {
                    assert forall|q: int| 0 <= q < rest@.len() implies #[trigger] member_views(rest@)[q] == m0.skip(i + 1)[q] by {
                        assert(rest@[q] == old_rest[q + 1]);
                        assert(member_views(old_rest)[q + 1] == m0.skip(i as int)[q + 1]);
                    }
                    assert(member_views(rest@) =~= m0.skip(i + 1));
                    assert(m0.take(i + 1) =~= m0.take(i as int).push(m0[i as int]));
                    m0.take(i as int).lemma_filter_push(m0[i as int], |p: (Seq<char>, JsonV)| p.0 != key@);
                }
                let ghost kb = member_views(kept@);
                if !crate::text::str_is(k.as_str(), key) {
                    let ghost kv = (k@, v@);
                    kept.push((k, v));
                    proof {
                        assert(member_views(kept@) =~= kb.push(kv));
                    }
                }
                i = i + 1;
            }
            proof {
                assert(m0.take(i as int) =~= m0);
                lemma_object_view(kept);
            }
            Json::Object(kept)
        },
        other => other,
    }
}

// ---------------------------------------------------------------------------
// Writing JSON text
// ---------------------------------------------------------------------------

/// The compact text that `serde_json::to_string` writes for the document
/// (as a `serde_json::Value`: object members in key order, a later member
/// of the same name in place of an earlier one, numbers by their text).
pub uninterp spec fn serde_text(v: JsonV) -> Seq<char>;

/// Writes the document with `serde_json::to_string`. Writing a `Value`
/// never fails (its map keys are strings).
#[verifier::external_body]
fn serde_json_text(j: &Json) -> (r: String)
    ensures
        r@ == serde_text(j@),
{
    serde_json::to_string(&json_to_serde(j)).unwrap_or_default()
}

/// A document as a serde_json `Value`, node for node; a number text that
/// serde_json does not read as a number becomes `null`.
#[verifier::external_body]
fn json_to_serde(j: &Json) -> serde_json::Value {
    match j {
        Json::Null => serde_json::Value::Null,
        Json::Bool(b) => serde_json::Value::Bool(*b),
        Json::Number(n) => n.parse::<serde_json::Number>().map(serde_json::Value::Number).unwrap_or(serde_json::Value::Null),
        Json::Str(s) => serde_json::Value::String(s.clone()),
        Json::Array(a) => serde_json::Value::Array(a.iter().map(json_to_serde).collect()),
        Json::Object(m) => serde_json::Value::Object(m.iter().map(|(k, x)| (k.clone(), json_to_serde(x))).collect()),
    }
}

/// The compact JSON text of a document, as serde_json writes it.
pub fn to_json_text(j: &Json) -> (r: String)
    ensures
        r@ == serde_text(j@),
{
    serde_json_text(j)
}

/// serde_json's document type, carried only inside `parse_json`.
#[verifier::external_type_specification]
#[verifier::external_body]
pub struct ExSerdeValue(serde_json::Value);

/// The document that `serde_json::from_str` reads from `text`; `None` when
/// serde_json refuses the text.
pub uninterp spec fn json_text_value(text: Seq<char>) -> Option<JsonV>;

/// Reads JSON text with `serde_json::from_str`. On success the document is
/// the one serde_json read, with numbers by serde_json's text for them and
/// object members in serde_json's order; on failure the message is
/// serde_json's, and nothing is stated of its words.
#[verifier::external_body]
pub(crate) fn parse_json(text: &str) -> (r: core::result::Result<Json, String>)
    ensures
        match r {
            Ok(j) => json_text_value(text@) == Some(j@),
            Err(_) => json_text_value(text@) is None,
        },
{
    match serde_json::from_str::<serde_json::Value>(text) {
        Ok(v) => Ok(json_from_serde(&v)),
        Err(e) => Err(e.to_string()),
    }
}

/// A serde_json document in the library's form, node for node.
#[verifier::external_body]
fn json_from_serde(v: &serde_json::Value) -> (r: Json) {
    match v {
        serde_json::Value::Null => Json::Null,
        serde_json::Value::Bool(b) => Json::Bool(*b),
        serde_json::Value::Number(n) => Json::Number(n.to_string()),
        serde_json::Value::String(s) => Json::Str(s.clone()),
        serde_json::Value::Array(a) => Json::Array(a.iter().map(json_from_serde).collect()),
        serde_json::Value::Object(m) => Json::Object(m.iter().map(|(k, x)| (k.clone(), json_from_serde(x))).collect()),
    }
}

} // verus!
