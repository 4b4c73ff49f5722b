use oci_hooks::edits::{flatten_edits, EditGroup, EditSet};
use oci_hooks::json::Json;
use oci_hooks::merge::{apply_edit_set, merge_edits, ConfigField, MergeError};
use oci_hooks::mounts::{mount_entry, MountSpec};

fn s(t: &str) -> Json {
    Json::Str(t.to_string())
}

fn obj(fields: Vec<(&str, Json)>) -> Json {
    Json::Object(fields.into_iter().map(|(k, v)| (k.to_string(), v)).collect())
}

fn env_doc(entries: &[&str]) -> Json {
    obj(vec![("process", obj(vec![("env", Json::Array(entries.iter().map(|e| s(e)).collect()))]))])
}

fn strings(items: &[&str]) -> Vec<String> {
    items.iter().map(|t| t.to_string()).collect()
}

fn mount(c: &str, h: &str) -> MountSpec {
    MountSpec { container_path: c.to_string(), host_path: h.to_string(), kind: None, options: None }
}

#[test]
fn pass_through_without_groups() {
    let doc = obj(vec![
        ("ociVersion", s("1.0.2")),
        ("hostname", Json::Null),
        ("count", Json::Number(serde_json::Number::from(7))),
        ("mounts", Json::Array(vec![s("odd")])),
    ]);
    let expected = obj(vec![
        ("ociVersion", s("1.0.2")),
        ("hostname", Json::Null),
        ("count", Json::Number(serde_json::Number::from(7))),
        ("mounts", Json::Array(vec![s("odd")])),
    ]);
    assert_eq!(apply_edit_set(doc, EditSet::empty()), Ok(expected));
}

#[test]
fn pass_through_with_empty_groups() {
    let doc = obj(vec![("mounts", s("not an array"))]);
    let set = EditSet {
        precreate: None,
        container_edits: vec![EditGroup { env: vec![], mounts: vec![] }],
    };
    assert_eq!(apply_edit_set(doc, set), Ok(obj(vec![("mounts", s("not an array"))])));
}

#[test]
fn mount_append_only() {
    let a = obj(vec![("destination", s("/a")), ("source", s("/host/a"))]);
    let doc = obj(vec![("mounts", Json::Array(vec![a]))]);
    let out = merge_edits(doc, vec![mount("/b", "/host/b")], vec![]);
    let expected = obj(vec![(
        "mounts",
        Json::Array(vec![
            obj(vec![("destination", s("/a")), ("source", s("/host/a"))]),
            obj(vec![("destination", s("/b")), ("source", s("/host/b"))]),
        ]),
    )]);
    assert_eq!(out, Ok(expected));
}

#[test]
fn mount_duplicates_are_kept() {
    let doc = obj(vec![]);
    let out = merge_edits(doc, vec![mount("/b", "/h"), mount("/b", "/h")], vec![]);
    let e = || obj(vec![("destination", s("/b")), ("source", s("/h"))]);
    assert_eq!(out, Ok(obj(vec![("mounts", Json::Array(vec![e(), e()]))])));
}

#[test]
fn mount_entry_with_type_and_options() {
    let m = MountSpec {
        container_path: "/dev/x".to_string(),
        host_path: "/host/x".to_string(),
        kind: Some("bind".to_string()),
        options: Some(strings(&["ro", "nosuid"])),
    };
    let expected = obj(vec![
        ("destination", s("/dev/x")),
        ("type", s("bind")),
        ("source", s("/host/x")),
        ("options", Json::Array(vec![s("ro"), s("nosuid")])),
    ]);
    assert_eq!(mount_entry(m), expected);
}

#[test]
fn env_upsert_preserves_position() {
    let out = merge_edits(env_doc(&["X=1", "Y=2"]), vec![], strings(&["X=9"]));
    assert_eq!(out, Ok(env_doc(&["X=9", "Y=2"])));
}

#[test]
fn env_append_for_new_key() {
    let out = merge_edits(env_doc(&["X=1"]), vec![], strings(&["Z=3"]));
    assert_eq!(out, Ok(env_doc(&["X=1", "Z=3"])));
}

#[test]
fn env_last_write_wins_within_batch() {
    let out = merge_edits(env_doc(&[]), vec![], strings(&["X=1", "X=2"]));
    assert_eq!(out, Ok(env_doc(&["X=2"])));
}

#[test]
fn env_key_is_whole_prefix() {
    let out = merge_edits(env_doc(&["XY=1", "X", "X==a"]), vec![], strings(&["X=b"]));
    assert_eq!(out, Ok(env_doc(&["XY=1", "X", "X=b"])));
}

#[test]
fn env_value_may_hold_separator() {
    let out = merge_edits(env_doc(&["A=x=y"]), vec![], strings(&["A=p=q", "B="]));
    assert_eq!(out, Ok(env_doc(&["A=p=q", "B="])));
}

#[test]
fn env_non_string_entries_kept() {
    let doc = obj(vec![("process", obj(vec![("env", Json::Array(vec![Json::Bool(true), s("X=1")]))]))]);
    let out = merge_edits(doc, vec![], strings(&["X=2"]));
    let expected =
        obj(vec![("process", obj(vec![("env", Json::Array(vec![Json::Bool(true), s("X=2")]))]))]);
    assert_eq!(out, Ok(expected));
}

#[test]
fn env_creates_process_and_env() {
    let doc = obj(vec![("root", obj(vec![("path", s("rootfs"))]))]);
    let out = merge_edits(doc, vec![], strings(&["A=1"]));
    let expected = obj(vec![
        ("root", obj(vec![("path", s("rootfs"))])),
        ("process", obj(vec![("env", Json::Array(vec![s("A=1")]))])),
    ]);
    assert_eq!(out, Ok(expected));
}

#[test]
fn env_keeps_other_process_fields() {
    let doc = obj(vec![("process", obj(vec![("cwd", s("/")), ("env", Json::Array(vec![]))]))]);
    let out = merge_edits(doc, vec![], strings(&["A=1"]));
    let expected =
        obj(vec![("process", obj(vec![("cwd", s("/")), ("env", Json::Array(vec![s("A=1")]))]))]);
    assert_eq!(out, Ok(expected));
}

#[test]
fn mounts_type_conflict() {
    let doc = obj(vec![("mounts", s("oops"))]);
    let out = merge_edits(doc, vec![mount("/b", "/h")], vec![]);
    assert_eq!(out, Err(MergeError::FieldTypeConflict(ConfigField::Mounts)));
}

#[test]
fn process_type_conflict() {
    let doc = obj(vec![("process", Json::Array(vec![]))]);
    let out = merge_edits(doc, vec![], strings(&["A=1"]));
    assert_eq!(out, Err(MergeError::FieldTypeConflict(ConfigField::Process)));
}

#[test]
fn process_env_type_conflict() {
    let doc = obj(vec![("process", obj(vec![("env", s("A=1"))]))]);
    let out = merge_edits(doc, vec![], strings(&["A=2"]));
    assert_eq!(out, Err(MergeError::FieldTypeConflict(ConfigField::ProcessEnv)));
}

#[test]
fn env_conflict_ignored_without_env_edits() {
    let doc = obj(vec![("process", s("x"))]);
    let out = merge_edits(doc, vec![mount("/b", "/h")], vec![]);
    let expected = obj(vec![
        ("process", s("x")),
        ("mounts", Json::Array(vec![obj(vec![("destination", s("/b")), ("source", s("/h"))])])),
    ]);
    assert_eq!(out, Ok(expected));
}

#[test]
fn validation_atomicity() {
    let out = merge_edits(env_doc(&[]), vec![], strings(&["A=1", "bad-entry"]));
    assert_eq!(out, Err(MergeError::InvalidEnvFormat("bad-entry".to_string())));
}

#[test]
fn empty_key_rejected() {
    let out = merge_edits(env_doc(&[]), vec![], strings(&["=1", "nokey"]));
    assert_eq!(out, Err(MergeError::EmptyEnvKey));
}

#[test]
fn mounts_checked_before_env() {
    let doc = obj(vec![("mounts", Json::Null)]);
    let out = merge_edits(doc, vec![mount("/b", "/h")], strings(&["bad"]));
    assert_eq!(out, Err(MergeError::FieldTypeConflict(ConfigField::Mounts)));
}

#[test]
fn env_validated_before_process_check() {
    let doc = obj(vec![("process", Json::Null)]);
    let out = merge_edits(doc, vec![], strings(&["bad"]));
    assert_eq!(out, Err(MergeError::InvalidEnvFormat("bad".to_string())));
}

#[test]
fn invalid_shape() {
    let out = merge_edits(Json::Array(vec![]), vec![], vec![]);
    assert_eq!(out, Err(MergeError::InvalidShape));
}

#[test]
fn flatten_keeps_group_order() {
    let set = EditSet {
        precreate: Some("x".to_string()),
        container_edits: vec![
            EditGroup { env: strings(&["A=1", "B=2"]), mounts: vec![mount("/1", "/h1")] },
            EditGroup { env: strings(&["A=3"]), mounts: vec![mount("/2", "/h2"), mount("/3", "/h3")] },
        ],
    };
    let (ms, ns) = flatten_edits(set);
    assert_eq!(ns, strings(&["A=1", "B=2", "A=3"]));
    assert_eq!(ms, vec![mount("/1", "/h1"), mount("/2", "/h2"), mount("/3", "/h3")]);
}

#[test]
fn edit_set_across_groups_last_write_wins() {
    let set = EditSet {
        precreate: None,
        container_edits: vec![
            EditGroup { env: strings(&["A=1"]), mounts: vec![] },
            EditGroup { env: strings(&["A=2"]), mounts: vec![] },
        ],
    };
    assert_eq!(apply_edit_set(env_doc(&["A=0", "C=1"]), set), Ok(env_doc(&["A=2", "C=1"])));
}
