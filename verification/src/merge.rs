//! The shared partial-merge routine.
//!
//! Several operations mirror a profile's settings into the live settings
//! file by overwriting only the top-level keys that the profile provides,
//! leaving every other key of the live file untouched. When either side is
//! not a JSON object, the live file is replaced wholesale by the incoming
//! settings. The one routine here is used by profile creation, update,
//! activation and reset.

use vstd::prelude::*;
use crate::json::Json;
use crate::json::JsonV;
use crate::json::fields_view;
use crate::json::json_clone;
use crate::json::clone_fields;
use crate::json::obj_set;
use crate::json::spec_obj_set;
use crate::json::spec_obj_get;
use crate::json::spec_obj_has_key;
use crate::json::spec_obj_unique_keys;
use crate::json::lemma_obj_set_get;

verus! {

/// `base` with each binding of `patch` applied in order.
pub open spec fn spec_merge_fields(
    base: Seq<(Seq<char>, JsonV)>,
    patch: Seq<(Seq<char>, JsonV)>,
) -> Seq<(Seq<char>, JsonV)>
    decreases patch.len(),
{
    if patch.len() == 0 {
        base
    } else {
        spec_merge_fields(spec_obj_set(base, patch[0].0, patch[0].1), patch.drop_first())
    }
}

/// The merged document: every top-level key of `patch` overwrites the same
/// key of `live`; other keys of `live` stay; when either side is not an
/// object the result is `patch` alone.
pub open spec fn spec_merge(live: JsonV, patch: JsonV) -> JsonV {
    if live is Obj && patch is Obj {
        JsonV::Obj(spec_merge_fields(live->Obj_0, patch->Obj_0))
    } else {
        patch
    }
}

proof fn lemma_merge_fields_push(
    base: Seq<(Seq<char>, JsonV)>,
    patch: Seq<(Seq<char>, JsonV)>,
    x: (Seq<char>, JsonV),
)
    ensures
        spec_merge_fields(base, patch.push(x)) == spec_obj_set(
            spec_merge_fields(base, patch),
            x.0,
            x.1,
        ),
    decreases patch.len(),
{
    if patch.len() == 0 {
        assert(patch.push(x)[0] == x);
        assert(patch.push(x).drop_first() =~= patch);
        assert(spec_merge_fields(base, patch.push(x)) == spec_merge_fields(
            spec_obj_set(base, x.0, x.1),
            patch,
        ));
        assert(spec_merge_fields(spec_obj_set(base, x.0, x.1), patch) == spec_obj_set(
            base,
            x.0,
            x.1,
        ));
    } else {
        assert(patch.push(x)[0] == patch[0]);
        assert(patch.push(x).drop_first() =~= patch.drop_first().push(x));
        assert(spec_merge_fields(base, patch.push(x)) == spec_merge_fields(
            spec_obj_set(base, patch[0].0, patch[0].1),
            patch.drop_first().push(x),
        ));
        lemma_merge_fields_push(spec_obj_set(base, patch[0].0, patch[0].1), patch.drop_first(), x);
    }
}

/// What the merge answers for each key, when the patch binds each of its
/// keys once: a key of the patch answers with the patch's value, any other
/// key answers as the base did.
pub proof fn lemma_merge_fields_get(
    base: Seq<(Seq<char>, JsonV)>,
    patch: Seq<(Seq<char>, JsonV)>,
    probe: Seq<char>,
)
    requires
        spec_obj_unique_keys(patch),
    ensures
        spec_obj_get(spec_merge_fields(base, patch), probe) == if spec_obj_has_key(patch, probe) {
            spec_obj_get(patch, probe)
        } else {
            spec_obj_get(base, probe)
        },
    decreases patch.len(),
{
    if patch.len() > 0 {
        let base1 = spec_obj_set(base, patch[0].0, patch[0].1);
        assert forall|i: int, j: int|
            0 <= i < j < patch.drop_first().len() implies patch.drop_first()[i].0
            != patch.drop_first()[j].0 by {
            assert(patch[i + 1].0 != patch[j + 1].0);
        }
        lemma_merge_fields_get(base1, patch.drop_first(), probe);
        lemma_obj_set_get(base, patch[0].0, patch[0].1, probe);
        crate::json::lemma_obj_index_of(patch, probe);
        crate::json::lemma_obj_index_of(patch.drop_first(), probe);
        if probe == patch[0].0 {
            crate::json::lemma_obj_has_key_exists(patch.drop_first(), probe);
            assert(!spec_obj_has_key(patch.drop_first(), probe)) by {
                if spec_obj_has_key(patch.drop_first(), probe) {
                    let i = choose|i: int|
                        0 <= i < patch.drop_first().len() && #[trigger] patch.drop_first()[i].0
                            == probe;
                    assert(patch[i + 1].0 == probe);
                    assert(patch[0].0 != patch[i + 1].0);
                }
            }
        } else {
            if spec_obj_has_key(patch, probe) {
                let i = crate::json::spec_obj_index_of(patch, probe);
                assert(patch.drop_first()[i - 1] == patch[i]);
                crate::json::lemma_obj_has_key_exists(patch.drop_first(), probe);
                assert(spec_obj_has_key(patch.drop_first(), probe));
                let i1 = crate::json::spec_obj_index_of(patch.drop_first(), probe);
                assert(patch[i1 + 1].0 == probe);
                assert(i1 + 1 >= i);
                assert(patch.drop_first()[i - 1].0 == probe);
                assert(i - 1 >= i1);
                assert(spec_obj_get(patch, probe) == spec_obj_get(patch.drop_first(), probe));
            } else {
                crate::json::lemma_obj_has_key_exists(patch, probe);
                crate::json::lemma_obj_has_key_exists(patch.drop_first(), probe);
                assert(!spec_obj_has_key(patch.drop_first(), probe)) by {
                    if spec_obj_has_key(patch.drop_first(), probe) {
                        let i = choose|i: int|
                            0 <= i < patch.drop_first().len() && #[trigger] patch.drop_first()[i].0
                                == probe;
                        assert(patch[i + 1].0 == probe);
                    }
                }
            }
        }
    }
}

/// The partial merge of a profile's `patch` into the `live` settings file.
pub fn merge_settings(live: &Json, patch: &Json) -> (r: Json)
    ensures
        r@ == spec_merge(live@, patch@),
{
    match (live, patch) {
        (Json::Obj(live_fields), Json::Obj(patch_fields)) => {
            let mut fields = clone_fields(live_fields);
            let mut i: usize = 0;
            proof {
                assert(fields_view(patch_fields@).take(0) =~= Seq::empty());
            }
            while i < patch_fields.len()
                invariant
                    i <= patch_fields@.len(),
                    fields_view(fields@) == spec_merge_fields(
                        fields_view(live_fields@),
                        fields_view(patch_fields@).take(i as int),
                    ),
                decreases patch_fields@.len() - i,
            {
                proof {
                    crate::json::lemma_fields_view(patch_fields@);
                }
                let key = patch_fields[i].0.clone();
                let value = json_clone(&patch_fields[i].1);
                let ghost before = fields_view(fields@);
                obj_set(&mut fields, key, value);
                proof {
                    let pv = fields_view(patch_fields@);
                    assert(pv.take(i + 1) =~= pv.take(i as int).push(pv[i as int]));
                    lemma_merge_fields_push(
                        fields_view(live_fields@),
                        pv.take(i as int),
                        pv[i as int],
                    );
                }
                i = i + 1;
            }
            proof {
                crate::json::lemma_fields_view(patch_fields@);
                let pv = fields_view(patch_fields@);
                assert(pv.take(patch_fields@.len() as int) =~= pv);
            }
            Json::Obj(fields)
        },
        _ => json_clone(patch),
    }
}

} // verus!
