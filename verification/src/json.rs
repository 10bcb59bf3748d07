//! A plain model of JSON documents.
//!
//! Every configuration file the engine works with is a JSON document; this
//! module gives the engine its own value type for them, so that merging,
//! overlay rewriting and encoding can be specified and verified directly.
//! Objects are kept as ordered field lists; all engine operations preserve
//! key uniqueness, and lookups return the first binding of a key.

use vstd::prelude::*;

verus! {

/// A JSON value. Numbers are restricted to signed integers, which covers
/// every numeric field the engine itself interprets; other numeric content
/// is carried through opaquely by the embedding application.
pub enum Json {
    Null,
    Bool(bool),
    Int(i64),
    Str(String),
    Arr(Vec<Json>),
    Obj(Vec<(String, Json)>),
}

/// The mathematical value of a [`Json`] document: the same tree with
/// strings as character sequences and lists as `Seq`.
#[verifier::ext_equal]
pub enum JsonV {
    Null,
    Bool(bool),
    Int(int),
    Str(Seq<char>),
    Arr(Seq<JsonV>),
    Obj(Seq<(Seq<char>, JsonV)>),
}

/// The mathematical value of a document.
pub open spec fn json_view_of(j: Json) -> JsonV
    decreases j,
{
    match j {
        Json::Null => JsonV::Null,
        Json::Bool(b) => JsonV::Bool(b),
        Json::Int(n) => JsonV::Int(n as int),
        Json::Str(s) => JsonV::Str(s@),
        Json::Arr(items) => JsonV::Arr(items_view(items@)),
        Json::Obj(fields) => JsonV::Obj(fields_view(fields@)),
    }
}

/// The view of a list of documents.
pub open spec fn items_view(items: Seq<Json>) -> Seq<JsonV>
    decreases items,
{
    if items.len() == 0 {
        Seq::empty()
    } else {
        seq![json_view_of(items[0])] + items_view(items.subrange(1, items.len() as int))
    }
}

/// The view of an executable field list.
pub open spec fn fields_view(fields: Seq<(String, Json)>) -> Seq<(Seq<char>, JsonV)>
    decreases fields,
{
    if fields.len() == 0 {
        Seq::empty()
    } else {
        seq![(fields[0].0@, json_view_of(fields[0].1))] + fields_view(
            fields.subrange(1, fields.len() as int),
        )
    }
}

impl View for Json {
    type V = JsonV;

    open spec fn view(&self) -> JsonV {
        json_view_of(*self)
    }
}

/// The view of a list of documents is the list of their views.
pub broadcast proof fn lemma_items_view(items: Seq<Json>)
    ensures
        (#[trigger] items_view(items)).len() == items.len(),
        forall|i: int| 0 <= i < items.len() ==> items_view(items)[i] == items[i]@,
    decreases items.len(),
{
    if items.len() > 0 {
        lemma_items_view(items.subrange(1, items.len() as int));
    }
}

/// The view of a field list pairs each key's characters with the value's view.
pub broadcast proof fn lemma_fields_view(fields: Seq<(String, Json)>)
    ensures
        (#[trigger] fields_view(fields)).len() == fields.len(),
        forall|i: int|
            0 <= i < fields.len() ==> fields_view(fields)[i] == (fields[i].0@, fields[i].1@),
    decreases fields.len(),
{
    if fields.len() > 0 {
        lemma_fields_view(fields.subrange(1, fields.len() as int));
    }
}

/// Appending a field extends the view by the field's view.
pub proof fn lemma_fields_view_push(fields: Seq<(String, Json)>, x: (String, Json))
    ensures
        fields_view(fields.push(x)) =~= fields_view(fields).push((x.0@, x.1@)),
{
    lemma_fields_view(fields.push(x));
    lemma_fields_view(fields);
}

/// The view of an executable string list.
pub open spec fn strs_view(items: Seq<String>) -> Seq<Seq<char>> {
    Seq::new(items.len(), |i: int| items[i]@)
}

/// The view of an optional document, as read from a file that may be absent.
pub open spec fn opt_json_view(o: Option<Json>) -> Option<JsonV> {
    match o {
        Some(j) => Some(j@),
        None => None,
    }
}

/// The view of an optional string.
pub open spec fn opt_str_view(o: Option<String>) -> Option<Seq<char>> {
    match o {
        Some(s) => Some(s@),
        None => None,
    }
}

/// Index of the first field named `key`, or `-1` when no field is.
pub open spec fn spec_obj_index_of(fields: Seq<(Seq<char>, JsonV)>, key: Seq<char>) -> int
    decreases fields.len(),
{
    if fields.len() == 0 {
        -1
    } else if fields[0].0 == key {
        0
    } else {
        let rest = spec_obj_index_of(fields.drop_first(), key);
        if rest < 0 {
            -1
        } else {
            rest + 1
        }
    }
}

/// Whether some field of `fields` is named `key`.
pub open spec fn spec_obj_has_key(fields: Seq<(Seq<char>, JsonV)>, key: Seq<char>) -> bool {
    spec_obj_index_of(fields, key) >= 0
}

/// The value bound to `key` in `fields`, taking the first binding.
pub open spec fn spec_obj_get(fields: Seq<(Seq<char>, JsonV)>, key: Seq<char>) -> Option<JsonV> {
    if spec_obj_has_key(fields, key) {
        Some(fields[spec_obj_index_of(fields, key)].1)
    } else {
        None
    }
}

/// The value bound to `key` in the object `v` (`None` when `v` is not an
/// object or lacks the key).
pub open spec fn spec_get(v: JsonV, key: Seq<char>) -> Option<JsonV> {
    match v {
        JsonV::Obj(fields) => spec_obj_get(fields, key),
        _ => None,
    }
}

/// No two fields share a name.
pub open spec fn spec_obj_unique_keys(fields: Seq<(Seq<char>, JsonV)>) -> bool {
    forall|i: int, j: int| 0 <= i < j < fields.len() ==> fields[i].0 != fields[j].0
}

/// `fields` with `key` bound to `value`: the first binding of `key` is
/// replaced in place, or a new field is appended when none exists.
pub open spec fn spec_obj_set(
    fields: Seq<(Seq<char>, JsonV)>,
    key: Seq<char>,
    value: JsonV,
) -> Seq<(Seq<char>, JsonV)> {
    if spec_obj_has_key(fields, key) {
        fields.update(spec_obj_index_of(fields, key), (key, value))
    } else {
        fields.push((key, value))
    }
}

/// Fields that survive removing `key`.
pub open spec fn keeps_key(key: Seq<char>) -> spec_fn((Seq<char>, JsonV)) -> bool {
    |f: (Seq<char>, JsonV)| f.0 != key
}

/// `fields` without any field named `key`.
pub open spec fn spec_obj_remove(
    fields: Seq<(Seq<char>, JsonV)>,
    key: Seq<char>,
) -> Seq<(Seq<char>, JsonV)> {
    fields.filter(keeps_key(key))
}

/// The index returned by the lookup is the first field named `key`; a
/// negative index means no field is.
pub proof fn lemma_obj_index_of(fields: Seq<(Seq<char>, JsonV)>, key: Seq<char>)
    ensures
        spec_obj_index_of(fields, key) >= 0 ==> {
            let i = spec_obj_index_of(fields, key);
            &&& 0 <= i < fields.len()
            &&& fields[i].0 == key
            &&& forall|k: int| 0 <= k < i ==> fields[k].0 != key
        },
        spec_obj_index_of(fields, key) < 0 ==> forall|k: int|
            0 <= k < fields.len() ==> fields[k].0 != key,
    decreases fields.len(),
{
    if fields.len() > 0 && fields[0].0 != key {
        lemma_obj_index_of(fields.drop_first(), key);
        let rest = spec_obj_index_of(fields.drop_first(), key);
        if rest >= 0 {
            assert forall|k: int| 0 <= k < rest + 1 implies fields[k].0 != key by {
                if k > 0 {
                    assert(fields.drop_first()[k - 1].0 != key);
                }
            }
        } else {
            assert forall|k: int| 0 <= k < fields.len() implies fields[k].0 != key by {
                if k > 0 {
                    assert(fields.drop_first()[k - 1].0 != key);
                }
            }
        }
    }
}

/// A key is found exactly when some field bears it.
pub proof fn lemma_obj_has_key_exists(fields: Seq<(Seq<char>, JsonV)>, key: Seq<char>)
    ensures
        spec_obj_has_key(fields, key) <==> exists|i: int|
            0 <= i < fields.len() && #[trigger] fields[i].0 == key,
{
    lemma_obj_index_of(fields, key);
    if spec_obj_has_key(fields, key) {
        let i = spec_obj_index_of(fields, key);
        assert(fields[i].0 == key);
    }
}

/// Looking a key up after a `set`: the set key answers with the new value,
/// every other key answers as before.
pub proof fn lemma_obj_set_get(
    fields: Seq<(Seq<char>, JsonV)>,
    key: Seq<char>,
    value: JsonV,
    probe: Seq<char>,
)
    ensures
        spec_obj_get(spec_obj_set(fields, key, value), probe) == if probe == key {
            Some(value)
        } else {
            spec_obj_get(fields, probe)
        },
    decreases fields.len(),
{
    lemma_obj_index_of(fields, key);
    lemma_obj_index_of(fields, probe);
    let out = spec_obj_set(fields, key, value);
    lemma_obj_index_of(out, probe);
    if fields.len() == 0 {
        assert(out =~= seq![(key, value)]);
    } else if fields[0].0 == key {
        assert(out =~= fields.update(0, (key, value)));
        if probe != key {
            assert(out.drop_first() =~= fields.drop_first());
        }
    } else {
        if spec_obj_has_key(fields, key) {
            let i = spec_obj_index_of(fields, key);
            assert(out =~= fields.update(i, (key, value)));
            assert(out.drop_first() =~= spec_obj_set(fields.drop_first(), key, value));
        } else {
            assert(out =~= fields.push((key, value)));
            assert(out.drop_first() =~= spec_obj_set(fields.drop_first(), key, value));
        }
        lemma_obj_set_get(fields.drop_first(), key, value, probe);
        assert(out[0] == fields[0]);
    }
}

/// Index of the first field named `key`, or `None` when no field is.
pub fn obj_index_of(fields: &Vec<(String, Json)>, key: &String) -> (r: Option<usize>)
    ensures
        match r {
            Some(i) => i == spec_obj_index_of(fields_view(fields@), key@),
            None => !spec_obj_has_key(fields_view(fields@), key@),
        },
{
    broadcast use lemma_fields_view;

    let ghost fv = fields_view(fields@);
    proof {
        lemma_obj_index_of(fv, key@);
        lemma_fields_view(fields@);
    }
    let mut i: usize = 0;
    while i < fields.len()
        invariant
            i <= fields@.len(),
            fv == fields_view(fields@),
            fv.len() == fields@.len(),
            forall|k: int| 0 <= k < fields@.len() ==> fv[k] == (fields@[k].0@, fields@[k].1@),
            forall|k: int| 0 <= k < i ==> fv[k].0 != key@,
            spec_obj_index_of(fv, key@) >= 0 ==> {
                let n = spec_obj_index_of(fv, key@);
                &&& 0 <= n < fv.len()
                &&& fv[n].0 == key@
                &&& forall|k: int| 0 <= k < n ==> fv[k].0 != key@
            },
            spec_obj_index_of(fv, key@) < 0 ==> forall|k: int|
                0 <= k < fv.len() ==> fv[k].0 != key@,
        decreases fields@.len() - i,
    {
        if fields[i].0 == *key {
            proof {
                assert(fv[i as int].0 == key@);
                let n = spec_obj_index_of(fv, key@);
                assert(n >= 0);
                if n < i {
                    assert(fv[n].0 != key@);
                }
                if n > i {
                    assert(fv[i as int].0 != key@);
                }
            }
            return Some(i);
        }
        i = i + 1;
    }
    None
}

/// A deep copy of a field list: the result denotes the same fields.
pub fn clone_fields(fields: &Vec<(String, Json)>) -> (r: Vec<(String, Json)>)
    ensures
        fields_view(r@) == fields_view(fields@),
{
    let mut out: Vec<(String, Json)> = Vec::new();
    let mut i: usize = 0;
    while i < fields.len()
        invariant
            i <= fields@.len(),
            out@.len() == i,
            forall|k: int|
                0 <= k < i ==> (#[trigger] out@[k]).0@ == fields@[k].0@ && out@[k].1@
                    == fields@[k].1@,
        decreases fields@.len() - i,
    {
        let key = fields[i].0.clone();
        let value = json_clone(&fields[i].1);
        out.push((key, value));
        i = i + 1;
    }
    proof {
        lemma_fields_view(out@);
        lemma_fields_view(fields@);
        assert(fields_view(out@) =~= fields_view(fields@));
    }
    out
}

/// A copy of a string list: the result holds the same strings.
pub fn clone_strings(items: &Vec<String>) -> (r: Vec<String>)
    ensures
        r@ == items@,
{
    let mut out: Vec<String> = Vec::new();
    let mut i: usize = 0;
    while i < items.len()
        invariant
            i <= items@.len(),
            out@ =~= items@.take(i as int),
        decreases items@.len() - i,
    {
        out.push(items[i].clone());
        assert(out@ =~= items@.take(i + 1));
        i = i + 1;
    }
    proof {
        assert(items@.take(items@.len() as int) =~= items@);
    }
    out
}

/// A deep copy: the result denotes the same document.
pub fn json_clone(j: &Json) -> (r: Json)
    ensures
        r@ == j@,
    decreases *j,
{
    broadcast use lemma_items_view, lemma_fields_view;
    match j {
        Json::Null => Json::Null,
        Json::Bool(b) => Json::Bool(*b),
        Json::Int(n) => Json::Int(*n),
        Json::Str(s) => Json::Str(s.clone()),
        Json::Arr(items) => {
            let mut out: Vec<Json> = Vec::new();
            let mut i: usize = 0;
            while i < items.len()
                invariant
                    i <= items@.len(),
                    out@.len() == i,
                    forall|k: int| 0 <= k < i ==> (#[trigger] out@[k])@ == items@[k]@,
                    *j == Json::Arr(*items),
                decreases items@.len() - i,
            {
                proof {
                    assert(decreases_to!(*j => j->Arr_0));
                    assert(decreases_to!(*items => items@[i as int]));
                }
                out.push(json_clone(&items[i]));
                i = i + 1;
            }
            proof {
                lemma_items_view(out@);
                lemma_items_view(items@);
                assert(items_view(out@) =~= items_view(items@));
            }
            Json::Arr(out)
        },
        Json::Obj(fields) => {
            let mut out: Vec<(String, Json)> = Vec::new();
            let mut i: usize = 0;
            while i < fields.len()
                invariant
                    i <= fields@.len(),
                    out@.len() == i,
                    forall|k: int|
                        0 <= k < i ==> (#[trigger] out@[k]).0@ == fields@[k].0@ && out@[k].1@
                            == fields@[k].1@,
                    *j == Json::Obj(*fields),
                decreases fields@.len() - i,
            {
                proof {
                    assert(decreases_to!(*j => j->Obj_0));
                    assert(decreases_to!(*fields => fields@[i as int]));
                    assert(decreases_to!(fields@[i as int] => fields@[i as int].1));
                }
                let key = fields[i].0.clone();
                let value = json_clone(&fields[i].1);
                out.push((key, value));
                i = i + 1;
            }
            proof {
                lemma_fields_view(out@);
                lemma_fields_view(fields@);
                assert(fields_view(out@) =~= fields_view(fields@));
            }
            Json::Obj(out)
        },
    }
}

/// The value bound to `key` in the object `j`, or `None`.
pub fn obj_get<'a>(j: &'a Json, key: &String) -> (r: Option<&'a Json>)
    ensures
        match r {
            Some(v) => spec_get(j@, key@) == Some(v@),
            None => spec_get(j@, key@) is None,
        },
{
    broadcast use lemma_fields_view;

    match j {
        Json::Obj(fields) => {
            match obj_index_of(fields, key) {
                Some(i) => {
                    proof {
                        lemma_obj_index_of(fields_view(fields@), key@);
                    }
                    Some(&fields[i].1)
                },
                None => None,
            }
        },
        _ => None,
    }
}

/// `fields` with `key` bound to `value`, replacing the first binding in
/// place or appending a new field.
pub fn obj_set(fields: &mut Vec<(String, Json)>, key: String, value: Json)
    ensures
        fields_view(final(fields)@) == spec_obj_set(fields_view(old(fields)@), key@, value@),
{
    broadcast use lemma_fields_view;
    let ghost oldv = fields_view(old(fields)@);
    match obj_index_of(fields, &key) {
        Some(i) => {
            proof {
                lemma_obj_index_of(oldv, key@);
            }
            fields.set(i, (key, value));
            assert(fields_view(fields@) =~= spec_obj_set(oldv, key@, value@));
        },
        None => {
            fields.push((key, value));
            assert(fields_view(fields@) =~= spec_obj_set(oldv, key@, value@));
        },
    }
}

/// `fields` without any field named `key`.
pub fn obj_remove(fields: &mut Vec<(String, Json)>, key: &String)
    ensures
        fields_view(final(fields)@) == spec_obj_remove(fields_view(old(fields)@), key@),
{
    let ghost oldv = fields_view(old(fields)@);
    proof {
        lemma_fields_view(old(fields)@);
    }
    let mut out: Vec<(String, Json)> = Vec::new();
    let mut i: usize = 0;
    while i < fields.len()
        invariant
            i <= fields@.len(),
            oldv == fields_view(fields@),
            oldv.len() == fields@.len(),
            forall|k: int| 0 <= k < fields@.len() ==> oldv[k] == (fields@[k].0@, fields@[k].1@),
            fields_view(out@) =~= oldv.take(i as int).filter(keeps_key(key@)),
        decreases fields@.len() - i,
    {
        let ghost prefix = oldv.take(i as int);
        let ghost cur = oldv[i as int];
        if fields[i].0 != *key {
            let entry = (fields[i].0.clone(), json_clone(&fields[i].1));
            let ghost ev = entry;
            let ghost out_before = out@;
            out.push(entry);
            proof {
                reveal(Seq::filter);
                assert(oldv.take(i + 1).drop_last() =~= prefix);
                assert(oldv.take(i + 1).last() == cur);
                lemma_fields_view_push(out_before, ev);
                assert(out@ =~= out_before.push(ev));
                assert((ev.0@, ev.1@) == cur);
                assert(keeps_key(key@)(cur));
                assert(fields_view(out@) =~= oldv.take(i + 1).filter(keeps_key(key@)));
            }
        } else {
            proof {
                reveal(Seq::filter);
                assert(oldv.take(i + 1).drop_last() =~= prefix);
                assert(oldv.take(i + 1).last() == cur);
                assert(!keeps_key(key@)(cur));
                assert(fields_view(out@) =~= oldv.take(i + 1).filter(keeps_key(key@)));
            }
        }
        i = i + 1;
    }
    proof {
        assert(oldv.take(fields@.len() as int) =~= oldv);
    }
    *fields = out;
}

} // verus!
