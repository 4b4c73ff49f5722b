use vstd::prelude::*;
use crate::text::same_text;

verus! {

/// Relies on serde_json::Number only as a type: a number is carried through
/// the document unchanged, and nothing is assumed of what it holds.
#[verifier::external_type_specification]
#[verifier::external_body]
pub struct ExNumber(serde_json::Number);

/// A structured document: a tagged union over the JSON value kinds. An
/// object keeps its fields in order.
#[derive(Debug, PartialEq)]
pub enum Json {
    Null,
    Bool(bool),
    Number(serde_json::Number),
    Str(String),
    Array(Vec<Json>),
    Object(Vec<(String, Json)>),
}

/// The first position at or after `i` of a field named `key`.
pub open spec fn key_index_from(fs: Seq<(String, Json)>, key: Seq<char>, i: int) -> Option<int>
    decreases fs.len() - i,
{
    if i < 0 || i >= fs.len() {
        None
    } else if fs[i].0@ == key {
        Some(i)
    } else {
        key_index_from(fs, key, i + 1)
    }
}

/// The position of the field named `key`.
pub open spec fn key_index(fs: Seq<(String, Json)>, key: Seq<char>) -> Option<int> {
    key_index_from(fs, key, 0)
}

/// The value of the field named `key`.
pub open spec fn field(fs: Seq<(String, Json)>, key: Seq<char>) -> Option<Json> {
    match key_index(fs, key) {
        Some(i) => Some(fs[i].1),
        None => None,
    }
}

/// The two kinds of value that hold other values.
#[derive(Debug, Clone, Copy, PartialEq, Eq, Structural)]
pub enum Container {
    Array,
    Object,
}

/// Whether `j` is of the kind `c`.
pub open spec fn is_container(j: Json, c: Container) -> bool {
    match c {
        Container::Array => j is Array,
        Container::Object => j is Object,
    }
}

/// Whether `j` is an empty value of the kind `c`.
pub open spec fn is_empty_container(j: Json, c: Container) -> bool {
    match c {
        Container::Array => j matches Json::Array(a) && a@.len() == 0,
        Container::Object => j matches Json::Object(o) && o@.len() == 0,
    }
}

/// Whether `fs` has a field named `key` whose value is not of the kind `c`.
pub open spec fn conflicting_field(fs: Seq<(String, Json)>, key: Seq<char>, c: Container) -> bool {
    field(fs, key) matches Some(v) && !is_container(v, c)
}

/// Whether `fs` has a field named `key` whose value is not an array.
pub open spec fn non_array_field(fs: Seq<(String, Json)>, key: Seq<char>) -> bool {
    conflicting_field(fs, key, Container::Array)
}

/// Whether `fs` has a field named `key` whose value is not an object.
pub open spec fn non_object_field(fs: Seq<(String, Json)>, key: Seq<char>) -> bool {
    conflicting_field(fs, key, Container::Object)
}

/// The items of the array under `key`: none where there is no such field.
pub open spec fn array_items(fs: Seq<(String, Json)>, key: Seq<char>) -> Seq<Json> {
    match field(fs, key) {
        Some(Json::Array(a)) => a@,
        _ => Seq::empty(),
    }
}

/// The fields of the object under `key`: none where there is no such field.
pub open spec fn object_fields(fs: Seq<(String, Json)>, key: Seq<char>) -> Seq<(String, Json)> {
    match field(fs, key) {
        Some(Json::Object(o)) => o@,
        _ => Seq::empty(),
    }
}

/// `after` is `before` where at most the value of the field `key` changed; a
/// field that `before` lacks is added last.
pub open spec fn only_field_changed(
    before: Seq<(String, Json)>,
    after: Seq<(String, Json)>,
    key: Seq<char>,
) -> bool {
    match key_index(before, key) {
        Some(i) => after.len() == before.len() && after[i].0 == before[i].0 && forall|j: int|
            0 <= j < before.len() && j != i ==> after[j] == before[j],
        None => after.len() == before.len() + 1 && after.drop_last() == before && after.last().0@
            == key,
    }
}

/// The position of the field named `key`.
pub fn find_field(fs: &Vec<(String, Json)>, key: &str) -> (r: Option<usize>)
    ensures
        r matches Some(i) ==> key_index(fs@, key@) == Some(i as int) && i < fs@.len(),
        r is None ==> key_index(fs@, key@) is None,
{
    proof {
        lemma_key_index(fs@, key@);
    }
    let mut i: usize = 0;
    while i < fs.len()
        invariant
            i <= fs@.len(),
            key_index(fs@, key@) matches Some(j) ==> 0 <= j < fs@.len(),
            key_index_from(fs@, key@, i as int) == key_index(fs@, key@),
        decreases fs.len() - i,
    {
        if same_text(fs[i].0.as_str(), key) {
            return Some(i);
        }
        i = i + 1;
    }
    None
}

/// Puts `v` in place of the value at position `i`, and hands back the old one.
pub fn replace_value(fs: &mut Vec<(String, Json)>, i: usize, v: Json) -> (r: Json)
    requires
        i < old(fs)@.len(),
    ensures
        r == old(fs)@[i as int].1,
        final(fs)@ == old(fs)@.update(i as int, (old(fs)@[i as int].0, v)),
{
    let (k, old_v) = fs.remove(i);
    fs.insert(i, (k, v));
    proof {
        assert(fs@ =~= old(fs)@.update(i as int, (old(fs)@[i as int].0, v)));
    }
    old_v
}

/// Lemma: adding a field of another name leaves where `key` is found.
pub proof fn lemma_key_index_push_other(fs: Seq<(String, Json)>, kv: (String, Json), key: Seq<char>)
    requires
        kv.0@ != key,
    ensures
        key_index(fs.push(kv), key) == key_index(fs, key),
{
    lemma_key_index_push_other_from(fs, kv, key, 0);
}

proof fn lemma_key_index_push_other_from(fs: Seq<(String, Json)>, kv: (String, Json), key: Seq<char>, i: int)
    requires
        kv.0@ != key,
        0 <= i <= fs.len(),
    ensures
        key_index_from(fs.push(kv), key, i) == key_index_from(fs, key, i),
    decreases fs.len() - i,
{
    if i < fs.len() {
        lemma_key_index_push_other_from(fs, kv, key, i + 1);
    } else {
        assert(key_index_from(fs.push(kv), key, i + 1) is None);
    }
}

/// Lemma: a change to the field `k1` leaves every other field as it was.
pub proof fn lemma_other_field(a: Seq<(String, Json)>, b: Seq<(String, Json)>, k1: Seq<char>, k2: Seq<char>)
    requires
        only_field_changed(a, b, k1),
        k1 != k2,
    ensures
        field(b, k2) == field(a, k2),
{
    lemma_key_index(a, k1);
    lemma_key_index(a, k2);
    match key_index(a, k1) {
        Some(i) => {
            lemma_same_names(a, b, k2);
        },
        None => {
            assert(b =~= a.push(b.last()));
            lemma_key_index_push_other(a, b.last(), k2);
        },
    }
}

/// Lemma: a found field lies within the list and has the name sought.
pub proof fn lemma_key_index(fs: Seq<(String, Json)>, key: Seq<char>)
    ensures
        key_index(fs, key) matches Some(i) ==> 0 <= i < fs.len() && fs[i].0@ == key,
{
    lemma_key_index_from(fs, key, 0);
}

proof fn lemma_key_index_from(fs: Seq<(String, Json)>, key: Seq<char>, j: int)
    requires
        0 <= j,
    ensures
        key_index_from(fs, key, j) matches Some(i) ==> j <= i < fs.len() && fs[i].0@ == key,
    decreases fs.len() - j,
{
    if j < fs.len() {
        lemma_key_index_from(fs, key, j + 1);
    }
}

/// Lemma: a field that `fs` lacks is found last once it is added.
pub proof fn lemma_key_index_push(fs: Seq<(String, Json)>, kv: (String, Json), key: Seq<char>)
    requires
        key_index(fs, key) is None,
        kv.0@ == key,
    ensures
        key_index(fs.push(kv), key) == Some(fs.len() as int),
{
    lemma_key_index_push_from(fs, kv, key, 0);
}

proof fn lemma_key_index_push_from(fs: Seq<(String, Json)>, kv: (String, Json), key: Seq<char>, i: int)
    requires
        0 <= i <= fs.len(),
        key_index_from(fs, key, i) is None,
        kv.0@ == key,
    ensures
        key_index_from(fs.push(kv), key, i) == Some(fs.len() as int),
    decreases fs.len() - i,
{
    if i < fs.len() {
        lemma_key_index_push_from(fs, kv, key, i + 1);
    }
}

/// Lemma: two field lists with the same names find each name at the same place.
pub proof fn lemma_same_names(a: Seq<(String, Json)>, b: Seq<(String, Json)>, key: Seq<char>)
    requires
        a.len() == b.len(),
        forall|j: int| 0 <= j < a.len() ==> (#[trigger] a[j]).0 == b[j].0,
    ensures
        key_index(a, key) == key_index(b, key),
{
    lemma_same_names_from(a, b, key, 0);
}

proof fn lemma_same_names_from(a: Seq<(String, Json)>, b: Seq<(String, Json)>, key: Seq<char>, i: int)
    requires
        a.len() == b.len(),
        forall|j: int| 0 <= j < a.len() ==> (#[trigger] a[j]).0 == b[j].0,
        0 <= i <= a.len(),
    ensures
        key_index_from(a, key, i) == key_index_from(b, key, i),
    decreases a.len() - i,
{
    if i < a.len() {
        assert(a[i].0 == b[i].0);
        lemma_same_names_from(a, b, key, i + 1);
    }
}

/// `after` is `before` with the field `key` set to `v`: in its place, or
/// added last.
pub open spec fn field_set(
    before: Seq<(String, Json)>,
    after: Seq<(String, Json)>,
    key: Seq<char>,
    v: Json,
) -> bool {
    only_field_changed(before, after, key) && field(after, key) == Some(v)
}

/// An empty value of the kind `c`.
fn empty_container(c: Container) -> (r: Json)
    ensures
        is_empty_container(r, c),
{
    match c {
        Container::Array => Json::Array(Vec::new()),
        Container::Object => Json::Object(Vec::new()),
    }
}

/// Whether `j` is of the kind `c`.
fn container_matches(j: &Json, c: Container) -> (r: bool)
    ensures
        r == is_container(*j, c),
{
    match c {
        Container::Array => matches!(j, Json::Array(_)),
        Container::Object => matches!(j, Json::Object(_)),
    }
}

/// Whether `fs` has a field named `key` whose value is not of the kind `c`.
pub fn field_conflicts(fs: &Vec<(String, Json)>, key: &str, c: Container) -> (r: bool)
    ensures
        r == conflicting_field(fs@, key@, c),
{
    match find_field(fs, key) {
        Some(i) => !container_matches(&fs[i].1, c),
        None => false,
    }
}

/// Makes sure that `fs` has a value of the kind `c` under `key`, adding an
/// empty one last where the field is missing, and takes that value out,
/// leaving `null` in its place. Where the field holds a value of another
/// kind, `fs` is left as it is and `None` comes back.
pub fn take_field(fs: &mut Vec<(String, Json)>, key: &str, c: Container) -> (r: Option<(usize, Json)>)
    ensures
        r is None <==> conflicting_field(old(fs)@, key@, c),
        r is None ==> final(fs)@ == old(fs)@,
        r matches Some((i, v)) ==> {
            &&& is_container(v, c)
            &&& field(old(fs)@, key@) matches Some(w) ==> v == w
            &&& field(old(fs)@, key@) is None ==> is_empty_container(v, c)
            &&& key_index(final(fs)@, key@) == Some(i as int)
            &&& only_field_changed(old(fs)@, final(fs)@, key@)
        },
{
    match find_field(fs, key) {
        None => {
            let ghost before = fs@;
            fs.push((key.to_owned(), Json::Null));
            proof {
                lemma_key_index_push(before, fs@.last(), key@);
                assert(fs@.drop_last() =~= before);
            }
            Some((fs.len() - 1, empty_container(c)))
        },
        Some(i) => {
            if !container_matches(&fs[i].1, c) {
                return None;
            }
            let ghost before = fs@;
            let v = replace_value(fs, i, Json::Null);
            proof {
                lemma_same_names(before, fs@, key@);
            }
            Some((i, v))
        },
    }
}

/// Puts `v` as the value of the field `key`, found at `i`.
pub(crate) fn store_field(fs: &mut Vec<(String, Json)>, i: usize, v: Json, Ghost(before): Ghost<Seq<(String, Json)>>, Ghost(key): Ghost<Seq<char>>)
    requires
        key_index(old(fs)@, key) == Some(i as int),
        only_field_changed(before, old(fs)@, key),
    ensures
        field_set(before, final(fs)@, key, v),
{
    let ghost mid = fs@;
    proof {
        lemma_key_index(mid, key);
    }
    replace_value(fs, i, v);
    proof {
        lemma_same_names(mid, fs@, key);
        match key_index(before, key) {
            Some(i0) => {
                lemma_same_names(before, mid, key);
            },
            None => {
                assert(mid =~= before.push(mid.last()));
                lemma_key_index_push(before, mid.last(), key);
                assert(fs@.drop_last() =~= before);
            },
        }
    }
}

} // verus!
