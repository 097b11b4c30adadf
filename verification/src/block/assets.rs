//! Writing blocks with the ids of an object's pictures and sounds.
//!
//! Scripts name pictures and sounds; the project stores their ids. A block
//! that names one is written with the id in place of the name.

use vstd::prelude::*;

use crate::asset::{lookup, AssetMap, AssetMapV};
use crate::block::encode::{block_json, enc_block, json_block, to_value};
use crate::block::kinds::BasicKind;
use crate::block::{lemma_slot_seq_view, Block, BlockV, ParamBlock, ParamV, SlotV, SlotValue};
use crate::error::Error;
use crate::json::{
    jat, jget, jset, jstr, json_views, lemma_array_view, lemma_object_view, member_views, object_of,
    with_member, Json, JsonV,
};
use crate::text::{push_str, str_is, unicode_lower};

verus! {

/// The id of sound `name` of `object`, if the table has one.
pub open spec fn sound_id_of(a: AssetMapV, object: Seq<char>, name: Seq<char>) -> Option<Seq<char>> {
    if a.objects.contains_key(unicode_lower(object)) {
        lookup(a.objects[unicode_lower(object)].sounds.by_name, name)
    } else {
        None
    }
}

/// The id of picture `name` of `object`, if the table has one.
pub open spec fn picture_id_of(a: AssetMapV, object: Seq<char>, name: Seq<char>) -> Option<Seq<char>> {
    if a.objects.contains_key(unicode_lower(object)) {
        lookup(a.objects[unicode_lower(object)].pictures.by_name, name)
    } else {
        None
    }
}

/// Kinds whose first slot is the sound to play.
pub open spec fn names_sound(k: BasicKind) -> bool {
    match k {
        BasicKind::SoundSomethingWithBlock | BasicKind::SoundSomethingSecondWithBlock
        | BasicKind::SoundFromTo | BasicKind::SoundSomethingWaitWithBlock
        | BasicKind::SoundSomethingSecondWaitWithBlock | BasicKind::SoundFromToAndWait
        | BasicKind::PlayBgm => true,
        _ => false,
    }
}

/// The sound that a block plays, when it is given as a text.
pub open spec fn sound_text(b: BlockV) -> Option<Seq<char>> {
    match b {
        BlockV::Basic(k, slots) => if names_sound(k) && slots.len() > 0 {
            match slots[0] {
                SlotV::Param(ParamV::Text(n)) => Some(n),
                _ => None,
            }
        } else {
            None
        },
        _ => None,
    }
}

/// The sound whose length a `get_sound_duration` block asks for.
pub open spec fn duration_sound(b: BlockV) -> Option<Seq<char>> {
    match b {
        BlockV::Basic(BasicKind::GetSoundDuration, slots) => if slots.len() > 1 {
            match slots[1] {
                SlotV::Name(n) => Some(n),
                _ => None,
            }
        } else {
            None
        },
        _ => None,
    }
}

/// A block's JSON with parameter `i` replaced by `p`; unchanged when it has
/// no such parameter.
pub open spec fn with_param(v: JsonV, i: int, p: JsonV) -> JsonV {
    match jget(v, "params"@) {
        Some(JsonV::Array(ps)) => if 0 <= i < ps.len() {
            jset(v, "params"@, JsonV::Array(ps.update(i, p)))
        } else {
            v
        },
        _ => v,
    }
}

/// The `get_sounds` value block that selects sound `id`.
pub open spec fn get_sounds_json(id: Seq<char>) -> JsonV {
    block_json("get_sounds"@, seq![JsonV::Str(id)])
}

/// One object with a sound name in place of an id: a `get_sound_duration`
/// block whose second parameter is a sound name of `object` gets its id.
pub open spec fn fix_duration(o: JsonV, a: AssetMapV, object: Seq<char>) -> JsonV {
    if jstr(jget(o, "type"@)) == Some("get_sound_duration"@) {
        match jget(o, "params"@) {
            Some(ps) => match jat(ps, 1) {
                Some(JsonV::Str(name)) => match sound_id_of(a, object, name) {
                    Some(id) => with_param(o, 1, JsonV::Str(id)),
                    None => o,
                },
                _ => o,
            },
            None => o,
        }
    } else {
        o
    }
}

/// Every `get_sound_duration` block anywhere inside `v`, with sound ids in
/// place of names.
pub open spec fn resolve_durations(v: JsonV, a: AssetMapV, object: Seq<char>) -> JsonV
    decreases v, 1int,
{
    match v {
        JsonV::Object(m) => fix_duration(JsonV::Object(resolve_members(m, a, object)), a, object),
        JsonV::Array(items) => JsonV::Array(resolve_items(items, a, object)),
        _ => v,
    }
}

/// `resolve_durations` of each member value.
pub open spec fn resolve_members(m: Seq<(Seq<char>, JsonV)>, a: AssetMapV, object: Seq<char>) -> Seq<(Seq<char>, JsonV)>
    decreases m, 0int,
{
    Seq::new(
        m.len(),
        |i: int|
            if 0 <= i < m.len() {
                (m[i].0, resolve_durations(m[i].1, a, object))
            } else {
                (Seq::empty(), JsonV::Null)
            },
    )
}

/// `resolve_durations` of each element.
pub open spec fn resolve_items(items: Seq<JsonV>, a: AssetMapV, object: Seq<char>) -> Seq<JsonV>
    decreases items, 0int,
{
    Seq::new(
        items.len(),
        |i: int|
            if 0 <= i < items.len() {
                resolve_durations(items[i], a, object)
            } else {
                JsonV::Null
            },
    )
}

/// The block's JSON before nested sound lengths are resolved: picture and
/// sound names of the block itself replaced by ids.
pub open spec fn own_ids(b: BlockV, a: AssetMapV, object: Seq<char>) -> JsonV {
    let v1 = match b {
        BlockV::ChangeToSomeShape(p) => match picture_id_of(a, object, p) {
            Some(id) => enc_block(BlockV::ChangeToSomeShape(id)),
            None => enc_block(b),
        },
        _ => enc_block(b),
    };
    let v2 = match sound_text(b) {
        Some(name) => match sound_id_of(a, object, name) {
            Some(id) => with_param(v1, 0, get_sounds_json(id)),
            None => v1,
        },
        None => v1,
    };
    match duration_sound(b) {
        Some(name) => match sound_id_of(a, object, name) {
            Some(id) => with_param(v2, 1, JsonV::Str(id)),
            None => v2,
        },
        None => v2,
    }
}

/// The sound that a block plays, when the object has no sound of that name.
pub open spec fn missing_sound(b: BlockV, a: AssetMapV, object: Seq<char>) -> Option<Seq<char>> {
    match sound_text(b) {
        Some(name) => if sound_id_of(a, object, name) is None {
            Some(name)
        } else {
            None
        },
        None => None,
    }
}

fn names_sound_kind(k: BasicKind) -> (r: bool)
    ensures
        r == names_sound(k),
{
    match k {
        BasicKind::SoundSomethingWithBlock | BasicKind::SoundSomethingSecondWithBlock
        | BasicKind::SoundFromTo | BasicKind::SoundSomethingWaitWithBlock
        | BasicKind::SoundSomethingSecondWaitWithBlock | BasicKind::SoundFromToAndWait
        | BasicKind::PlayBgm => true,
        _ => false,
    }
}

/// The document with parameter `i` replaced by `p` (see `with_param`).
fn set_param(v: Json, i: usize, p: Json) -> (r: Json)
    ensures
        r@ == with_param(v@, i as int, p@),
{
    let ghost pv = p@;
    let items: Option<Vec<Json>> = match v.get("params") {
        Some(ps) => match ps.as_array() {
            Some(a) => {
                if i < a.len() {
                    let mut out: Vec<Json> = Vec::new();
                    let mut k: usize = 0;
                    while k < a.len()
                        invariant
                            k <= a.len(),
                            i < a.len(),
                            out@.len() == k,
                            forall|q: int| 0 <= q < k ==> #[trigger] out@[q]@ == a@[q]@,
                        decreases a.len() - k,
                    {
                        out.push(a[k].duplicate());
                        k = k + 1;
                    }
                    proof {
                        assert(json_views(out@) =~= json_views(a@));
                    }
                    Some(out)
                } else {
                    None
                }
            },
            None => None,
        },
        None => None,
    };
    match items {
        Some(mut out) => {
            let ghost before = json_views(out@);
            out.set(i, p);
            proof {
                assert(json_views(out@) =~= before.update(i as int, pv));
                lemma_array_view(out);
            }
            with_member(v, "params", Json::Array(out))
        },
        None => v,
    }
}

/// `o` with its sound length resolved (see `fix_duration`).
fn fix_duration_of(o: Json, assets: &AssetMap, object: &str) -> (r: Json)
    ensures
        r@ == fix_duration(o@, assets@, object@),
{
    let is_duration = match o.get("type") {
        Some(t) => match t.as_str() {
            Some(s) => str_is(s, "get_sound_duration"),
            None => false,
        },
        None => false,
    };
    if !is_duration {
        return o;
    }
    let name: Option<String> = match o.get("params") {
        Some(ps) => match ps.at(1) {
            Some(Json::Str(n)) => Some(n.clone()),
            _ => None,
        },
        None => None,
    };
    match name {
        Some(n) => match assets.sound_id_by_name(object, n.as_str()) {
            Some(id) => set_param(o, 1, Json::text(id)),
            None => o,
        },
        None => o,
    }
}

/// `v` with every nested sound length resolved (see `resolve_durations`).
#[verifier::loop_isolation(false)]
pub fn resolve_sound_durations(v: &Json, assets: &AssetMap, object: &str) -> (r: Json)
    ensures
        r@ == resolve_durations(v@, assets@, object@),
    decreases v,
{
    match v {
        Json::Array(items) => {
            let mut out: Vec<Json> = Vec::new();
            let mut i: usize = 0;
            while i < items.len()
                invariant
                    i <= items.len(),
                    out@.len() == i,
                    forall|k: int| 0 <= k < i ==> #[trigger] out@[k]@ == resolve_durations(items@[k]@, assets@, object@),
                decreases items.len() - i,
            {
                proof {
                    vstd::std_specs::vec::axiom_vec_index_decreases(*items, i as int);
                    assert(decreases_to!(*v => *items));
                }
                out.push(resolve_sound_durations(&items[i], assets, object));
                i = i + 1;
            }
            proof {
                lemma_array_view(*items);
                lemma_array_view(out);
                assert(*v == Json::Array(*items));
                let m = json_views(items@);
                assert(v@ == JsonV::Array(m));
                assert(json_views(out@) =~= resolve_items(m, assets@, object@));
            }
            Json::Array(out)
        },
        Json::Object(members) => {
            let mut out: Vec<(String, Json)> = Vec::new();
            let mut i: usize = 0;
            while i < members.len()
                invariant
                    i <= members.len(),
                    out@.len() == i,
                    forall|k: int| 0 <= k < i ==> #[trigger] out@[k].0@ == members@[k].0@ && out@[k].1@
                        == resolve_durations(members@[k].1@, assets@, object@),
                decreases members.len() - i,
            {
                proof {
                    vstd::std_specs::vec::axiom_vec_index_decreases(*members, i as int);
                    assert(decreases_to!(*v => *members));
                }
                let r = resolve_sound_durations(&members[i].1, assets, object);
                out.push((members[i].0.clone(), r));
                i = i + 1;
            }
            proof {
                lemma_object_view(*members);
                let m = member_views(members@);
                assert(*v == Json::Object(*members));
                assert(v@ == JsonV::Object(m));
                assert(member_views(out@) =~= resolve_members(m, assets@, object@));
            }
            fix_duration_of(object_of(out), assets, object)
        },
        Json::Null => Json::Null,
        Json::Bool(b) => Json::Bool(*b),
        Json::Number(n) => Json::Number(n.clone()),
        Json::Str(s) => Json::Str(s.clone()),
    }
}

/// JSON of a block for object `object`, with the ids of the object's
/// pictures and sounds in place of their names: the picture of
/// `change_to_some_shape`, a sound given as a text (as a `get_sounds` value
/// block), and the sound of every `get_sound_duration` block inside it. A
/// picture or sound length the object does not have keeps its name; a sound
/// to play that the object does not have is a `Semantic` error.
pub fn to_value_with_assets(block: &Block, assets: &AssetMap, object_name: &str) -> (r: crate::error::Result<Json>)
    ensures
        missing_sound(block@, assets@, object_name@) matches Some(name) ==> (r matches Err(Error::Semantic(m))
            && m@ == object_name@ + ": sound not found: "@ + name),
        missing_sound(block@, assets@, object_name@) is None ==> (r matches Ok(j) && j@ == resolve_durations(
            own_ids(block@, assets@, object_name@),
            assets@,
            object_name@,
        )),
{
    let first = match block {
        Block::ChangeToSomeShape { picture } => match assets.picture_id_by_name(object_name, picture.as_str()) {
            Some(id) => to_value(&Block::ChangeToSomeShape { picture: id.to_owned() }),
            None => to_value(block),
        },
        _ => to_value(block),
    };
    let mut value = match first {
        Ok(j) => j,
        Err(e) => {
            return Err(e);
        },
    };
    let sound: Option<&str> = match block {
        Block::Basic { kind, slots } => {
            proof {
                lemma_slot_seq_view(slots);
            }
            if names_sound_kind(*kind) && slots.len() > 0 {
                match &slots[0] {
                    SlotValue::Param(ParamBlock::Text(n)) => Some(n.as_str()),
                    _ => None,
                }
            } else {
                None
            }
        },
        _ => None,
    };
    if let Some(name) = sound {
        match assets.sound_id_by_name(object_name, name) {
            Some(id) => {
                let mut ps: Vec<Json> = Vec::new();
                ps.push(Json::text(id));
                proof {
                    assert(json_views(ps@) =~= seq![JsonV::Str(id@)]);
                }
                value = set_param(value, 0, json_block("get_sounds", ps));
            },
            None => {
                let mut m = String::new();
                push_str(&mut m, object_name);
                push_str(&mut m, ": sound not found: ");
                push_str(&mut m, name);
                return Err(Error::Semantic(m));
            },
        }
    }
    let duration: Option<&str> = match block {
        Block::Basic { kind: BasicKind::GetSoundDuration, slots } => {
            proof {
                lemma_slot_seq_view(slots);
            }
            if slots.len() > 1 {
                match &slots[1] {
                    SlotValue::Name(n) => Some(n.as_str()),
                    _ => None,
                }
            } else {
                None
            }
        },
        _ => None,
    };
    if let Some(name) = duration {
        if let Some(id) = assets.sound_id_by_name(object_name, name) {
            value = set_param(value, 1, Json::text(id));
        }
    }
    Ok(resolve_sound_durations(&value, assets, object_name))
}

} // verus!
