use vstd::prelude::*;
use crate::env::{
    fault_error, first_fault, is_assignment, lemma_first_fault_from, merge_env_entries, upsert_all,
    validate_env_strings,
};
use crate::json::{
    array_items, field, field_conflicts, find_field, is_container, lemma_other_field,
    non_array_field, non_object_field, object_fields, only_field_changed, store_field, take_field,
    Container, Json,
};
use crate::edits::{flat_env, flat_mounts, flatten_edits, EditSet};
use crate::mounts::{mounts_appended, push_mount_entries, MountSpec};

verus! {

/// A field that the merge needs as an array or an object.
#[derive(Debug, Clone, Copy, PartialEq, Eq, Structural)]
pub enum ConfigField {
    Mounts,
    Process,
    ProcessEnv,
}

/// Why a merge fails.
#[derive(Debug, PartialEq)]
pub enum MergeError {
    /// The document is not an object.
    InvalidShape,
    /// A field exists with another kind than the merge needs.
    FieldTypeConflict(ConfigField),
    /// An environment string without `=`.
    InvalidEnvFormat(String),
    /// An environment string whose key is empty.
    EmptyEnvKey,
}


/// Whether `after` are the fields `before` once the mounts `ms` are merged:
/// the same where `ms` is empty, else with their entries appended to the
/// array `mounts`, which is created where it is missing.
pub open spec fn mounts_merged(before: Seq<(String, Json)>, after: Seq<(String, Json)>, ms: Seq<MountSpec>) -> bool {
    if ms.len() == 0 {
        after == before
    } else {
        &&& only_field_changed(before, after, "mounts"@)
        &&& field(after, "mounts"@) matches Some(Json::Array(a))
        &&& mounts_appended(array_items(before, "mounts"@), a@, ms)
    }
}

/// Whether `after` are the fields `before` once the assignments `ns` are
/// merged: the same where `ns` is empty, else with `process.env` (created,
/// with `process`, where missing) holding the upserts of `ns`.
pub open spec fn env_merged(before: Seq<(String, Json)>, after: Seq<(String, Json)>, ns: Seq<String>) -> bool {
    if ns.len() == 0 {
        after == before
    } else {
        &&& only_field_changed(before, after, "process"@)
        &&& field(after, "process"@) matches Some(Json::Object(p))
        &&& only_field_changed(object_fields(before, "process"@), p@, "env"@)
        &&& field(p@, "env"@) matches Some(Json::Array(e))
        &&& e@ == upsert_all(array_items(object_fields(before, "process"@), "env"@), ns)
    }
}

/// The error that merging `ms` and `ns` into `doc` meets first, if any:
/// the shape of the document, then the mounts, then the environment
/// strings, then `process` and `process.env`.
pub open spec fn merge_error(doc: Json, ms: Seq<MountSpec>, ns: Seq<String>) -> Option<MergeError> {
    match doc {
        Json::Object(fs) => {
            if ms.len() > 0 && non_array_field(fs@, "mounts"@) {
                Some(MergeError::FieldTypeConflict(ConfigField::Mounts))
            } else if first_fault(ns) is Some {
                Some(fault_error(ns[first_fault(ns)->Some_0]))
            } else if ns.len() > 0 && non_object_field(fs@, "process"@) {
                Some(MergeError::FieldTypeConflict(ConfigField::Process))
            } else if ns.len() > 0 && non_array_field(object_fields(fs@, "process"@), "env"@) {
                Some(MergeError::FieldTypeConflict(ConfigField::ProcessEnv))
            } else {
                None
            }
        },
        _ => Some(MergeError::InvalidShape),
    }
}

/// Whether `out` is the document `doc` once the mounts `ms` and then the
/// assignments `ns` are merged into it.
pub open spec fn merged(doc: Json, ms: Seq<MountSpec>, ns: Seq<String>, out: Json) -> bool {
    doc matches Json::Object(fs) && out matches Json::Object(gs) && exists|mid: Seq<(String, Json)>|
        mounts_merged(fs@, mid, ms) && #[trigger] env_merged(mid, gs@, ns)
}

/// Appends the entries for the mounts `ms` to the array `mounts` of the
/// fields `fs`, creating it where it is missing.
pub fn append_mounts(fs: &mut Vec<(String, Json)>, ms: Vec<MountSpec>) -> (r: Result<(), MergeError>)
    requires
        ms@.len() > 0,
    ensures
        non_array_field(old(fs)@, "mounts"@) ==> r == Err::<(), MergeError>(
            MergeError::FieldTypeConflict(ConfigField::Mounts),
        ) && final(fs)@ == old(fs)@,
        !non_array_field(old(fs)@, "mounts"@) ==> r is Ok && mounts_merged(old(fs)@, final(fs)@, ms@),
{
    let ghost before = fs@;
    match take_field(fs, "mounts", Container::Array) {
        None => Err(MergeError::FieldTypeConflict(ConfigField::Mounts)),
        Some((i, Json::Array(mut items))) => {
            assert(items@ =~= array_items(before, "mounts"@));
            push_mount_entries(&mut items, ms);
            store_field(fs, i, Json::Array(items), Ghost(before), Ghost("mounts"@));
            Ok(())
        },
        Some(_) => Err(MergeError::FieldTypeConflict(ConfigField::Mounts)),
    }
}

/// Upserts the assignments `ns` into `process.env` of the fields `fs`,
/// creating `process` and `env` where they are missing. Nothing changes
/// where either exists with the wrong kind.
pub fn merge_process_env_strings(fs: &mut Vec<(String, Json)>, ns: Vec<String>) -> (r: Result<(), MergeError>)
    requires
        ns@.len() > 0,
        forall|i: int| 0 <= i < ns@.len() ==> is_assignment(#[trigger] ns@[i]@),
    ensures
        non_object_field(old(fs)@, "process"@) ==> r == Err::<(), MergeError>(
            MergeError::FieldTypeConflict(ConfigField::Process),
        ) && final(fs)@ == old(fs)@,
        !non_object_field(old(fs)@, "process"@) && non_array_field(
            object_fields(old(fs)@, "process"@),
            "env"@,
        ) ==> r == Err::<(), MergeError>(MergeError::FieldTypeConflict(ConfigField::ProcessEnv))
            && final(fs)@ == old(fs)@,
        !non_object_field(old(fs)@, "process"@) && !non_array_field(
            object_fields(old(fs)@, "process"@),
            "env"@,
        ) ==> r is Ok && env_merged(old(fs)@, final(fs)@, ns@),
{
    if field_conflicts(fs, "process", Container::Object) {
        return Err(MergeError::FieldTypeConflict(ConfigField::Process));
    }
    match find_field(fs, "process") {
        Some(i) => match &fs[i].1 {
            Json::Object(p) => {
                if field_conflicts(p, "env", Container::Array) {
                    return Err(MergeError::FieldTypeConflict(ConfigField::ProcessEnv));
                }
            },
            _ => {},
        },
        None => {},
    }
    let ghost before = fs@;
    match take_field(fs, "process", Container::Object) {
        Some((i, Json::Object(mut pfs))) => {
            assert(pfs@ =~= object_fields(before, "process"@));
            let ghost pbefore = pfs@;
            match take_field(&mut pfs, "env", Container::Array) {
                Some((j, Json::Array(mut env))) => {
                    assert(env@ =~= array_items(pbefore, "env"@));
                    merge_env_entries(&mut env, ns);
                    store_field(&mut pfs, j, Json::Array(env), Ghost(pbefore), Ghost("env"@));
                    store_field(fs, i, Json::Object(pfs), Ghost(before), Ghost("process"@));
                    Ok(())
                },
                _ => Err(MergeError::FieldTypeConflict(ConfigField::ProcessEnv)),
            }
        },
        _ => Err(MergeError::FieldTypeConflict(ConfigField::Process)),
    }
}


/// Merges the mounts `ms`, then the assignments `ns`, into the document
/// `doc`. Either the whole merged document comes back, or the first error
/// that `merge_error` names; with nothing to merge, `doc` comes back as it
/// is.
pub fn merge_edits(doc: Json, ms: Vec<MountSpec>, ns: Vec<String>) -> (r: Result<Json, MergeError>)
    ensures
        merge_error(doc, ms@, ns@) matches Some(e) ==> r == Err::<Json, MergeError>(e),
        merge_error(doc, ms@, ns@) is None ==> (r matches Ok(out) && merged(doc, ms@, ns@, out)),
        doc is Object && ms@.len() == 0 && ns@.len() == 0 ==> r == Ok::<Json, MergeError>(doc),
{
    if !matches!(doc, Json::Object(_)) {
        return Err(MergeError::InvalidShape);
    }
    if ms.len() == 0 && ns.len() == 0 {
        proof {
            let fs = doc->Object_0@;
            assert(mounts_merged(fs, fs, ms@) && env_merged(fs, fs, ns@));
        }
        return Ok(doc);
    }
    let ghost d = doc;
    let mut fs = match doc {
        Json::Object(fs) => fs,
        _ => {
            return Err(MergeError::InvalidShape);
        },
    };
    let ghost start = fs@;
    if ms.len() > 0 {
        match append_mounts(&mut fs, ms) {
            Ok(()) => {},
            Err(e) => {
                return Err(e);
            },
        }
    }
    let ghost mid = fs@;
    let ghost empty_ns = ns@.len() == 0;
    let ns = match validate_env_strings(ns) {
        Ok(ns) => ns,
        Err(e) => {
            return Err(e);
        },
    };
    if ns.len() > 0 {
        proof {
            if ms@.len() > 0 {
                reveal_strlit("mounts");
                reveal_strlit("process");
                assert("mounts"@[0] != "process"@[0]);
                lemma_other_field(start, mid, "mounts"@, "process"@);
            }
        }
        match merge_process_env_strings(&mut fs, ns) {
            Ok(()) => {},
            Err(e) => {
                return Err(e);
            },
        }
    }
    let ghost gs = fs@;
    let out = Json::Object(fs);
    proof {
        assert(out->Object_0@ == gs);
        assert(mounts_merged(start, mid, ms@));
        assert(env_merged(mid, gs, ns@));
    }
    Ok(out)
}


/// The pre-create merge: flattens the edit set, then merges its mounts and
/// its environment strings into `doc`. An edit set without groups leaves an
/// object as it is.
pub fn apply_edit_set(doc: Json, edits: EditSet) -> (r: Result<Json, MergeError>)
    ensures
        merge_error(doc, flat_mounts(edits.container_edits@), flat_env(edits.container_edits@))
            matches Some(e) ==> r == Err::<Json, MergeError>(e),
        merge_error(doc, flat_mounts(edits.container_edits@), flat_env(edits.container_edits@))
            is None ==> (r matches Ok(out) && merged(
            doc,
            flat_mounts(edits.container_edits@),
            flat_env(edits.container_edits@),
            out,
        )),
        doc is Object && flat_mounts(edits.container_edits@).len() == 0 && flat_env(
            edits.container_edits@,
        ).len() == 0 ==> r == Ok::<Json, MergeError>(doc),
        doc is Object && edits.container_edits@.len() == 0 ==> r == Ok::<Json, MergeError>(doc),
{
    let (ms, ns) = flatten_edits(edits);
    merge_edits(doc, ms, ns)
}

/// A `mounts` field that holds a string is a type conflict as soon as there
/// is a mount to merge, whatever the environment strings are.
pub proof fn lemma_mounts_type_conflict(doc: Json, ms: Seq<MountSpec>, ns: Seq<String>)
    requires
        doc matches Json::Object(fs) && (field(fs@, "mounts"@) matches Some(Json::Str(_))),
        ms.len() > 0,
    ensures
        merge_error(doc, ms, ns) == Some(MergeError::FieldTypeConflict(ConfigField::Mounts)),
{
    assert(!is_container(field(doc->Object_0@, "mounts"@)->Some_0, Container::Array));
}

/// A batch of environment strings of which one is not an assignment fails
/// as a whole, with an environment error, whenever the mounts do not fail
/// first: no part of it is merged.
pub proof fn lemma_env_batch_atomic(doc: Json, ms: Seq<MountSpec>, ns: Seq<String>, i: int)
    requires
        doc is Object,
        0 <= i < ns.len(),
        !is_assignment(ns[i]@),
        !(ms.len() > 0 && non_array_field(doc->Object_0@, "mounts"@)),
    ensures
        merge_error(doc, ms, ns) matches Some(e) && (e is InvalidEnvFormat || e is EmptyEnvKey),
{
    lemma_first_fault_from(ns, 0);
}

} // verus!
