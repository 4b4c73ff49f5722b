use vstd::prelude::*;
use crate::json::Json;

verus! {

/// A mount as an edit gives it.
#[derive(Debug, PartialEq)]
pub struct MountSpec {
    pub container_path: String,
    pub host_path: String,
    pub kind: Option<String>,
    pub options: Option<Vec<String>>,
}

/// Whether `j` is the string `t`.
pub open spec fn is_text(j: Json, t: Seq<char>) -> bool {
    j matches Json::Str(s) && s@ == t
}

/// Whether `js` are the strings `ss`, in order.
pub open spec fn are_texts(js: Seq<Json>, ss: Seq<String>) -> bool {
    js.len() == ss.len() && forall|i: int| 0 <= i < js.len() ==> is_text(#[trigger] js[i], ss[i]@)
}

/// Whether `fs` are the fields of the configuration's entry for `m`:
/// `destination`, `type` if `m` has one, `source`, and `options` if `m`
/// has them, in this order.
pub open spec fn mount_fields(fs: Seq<(String, Json)>, m: MountSpec) -> bool {
    let t: int = if m.kind is Some { 1 } else { 0 };
    let o: int = if m.options is Some { 1 } else { 0 };
    &&& fs.len() == 2 + t + o
    &&& fs[0].0@ == "destination"@ && is_text(fs[0].1, m.container_path@)
    &&& (m.kind matches Some(k) ==> fs[1].0@ == "type"@ && is_text(fs[1].1, k@))
    &&& fs[1 + t].0@ == "source"@ && is_text(fs[1 + t].1, m.host_path@)
    &&& (m.options matches Some(os) ==> fs[2 + t].0@ == "options"@ && (fs[2
        + t].1 matches Json::Array(a) && are_texts(a@, os@)))
}

/// Whether `j` is the configuration's entry for `m`.
pub open spec fn is_mount_entry(j: Json, m: MountSpec) -> bool {
    j matches Json::Object(fs) && mount_fields(fs@, m)
}

/// Whether `after` is `before` followed by the entries for `ms`, in order.
pub open spec fn mounts_appended(before: Seq<Json>, after: Seq<Json>, ms: Seq<MountSpec>) -> bool {
    &&& after.len() == before.len() + ms.len()
    &&& after.take(before.len() as int) == before
    &&& forall|i: int| 0 <= i < ms.len() ==> is_mount_entry(#[trigger] after[before.len() + i], ms[i])
}

/// The strings `ss` as document strings.
pub fn texts_of(ss: Vec<String>) -> (r: Vec<Json>)
    ensures
        are_texts(r@, ss@),
{
    let mut rest = ss;
    let mut out: Vec<Json> = Vec::new();
    let ghost all = ss@;
    let ghost k: int = 0;
    while rest.len() > 0
        invariant
            0 <= k <= all.len(),
            rest@ == all.skip(k),
            out@.len() == k,
            forall|i: int| 0 <= i < k ==> is_text(#[trigger] out@[i], all[i]@),
        decreases rest@.len(),
    {
        let ghost before = rest@;
        let s = rest.remove(0);
        proof {
            assert(s == before[0]);
            assert(rest@ =~= all.skip(k + 1));
            k = k + 1;
        }
        out.push(Json::Str(s));
    }
    out
}

/// The configuration's entry for a mount: the container path becomes the
/// destination, the host path the source.
pub fn mount_entry(m: MountSpec) -> (r: Json)
    ensures
        is_mount_entry(r, m),
{
    let ghost g = m;
    let MountSpec { container_path, host_path, kind, options } = m;
    let mut fs: Vec<(String, Json)> = Vec::new();
    fs.push(("destination".to_owned(), Json::Str(container_path)));
    match kind {
        Some(k) => fs.push(("type".to_owned(), Json::Str(k))),
        None => {},
    }
    fs.push(("source".to_owned(), Json::Str(host_path)));
    match options {
        Some(os) => {
            let items = texts_of(os);
            fs.push(("options".to_owned(), Json::Array(items)));
        },
        None => {},
    }
    Json::Object(fs)
}

/// Appends the entries for `ms` to `arr`, in order; none is skipped.
pub fn push_mount_entries(arr: &mut Vec<Json>, ms: Vec<MountSpec>)
    ensures
        mounts_appended(old(arr)@, final(arr)@, ms@),
{
    let mut rest = ms;
    let ghost all = ms@;
    let ghost start = arr@;
    let ghost k: int = 0;
    while rest.len() > 0
        invariant
            0 <= k <= all.len(),
            rest@ == all.skip(k),
            arr@.len() == start.len() + k,
            arr@.take(start.len() as int) == start,
            forall|i: int| 0 <= i < k ==> is_mount_entry(#[trigger] arr@[start.len() + i], all[i]),
        decreases rest@.len(),
    {
        let ghost before = rest@;
        let m = rest.remove(0);
        proof {
            assert(m == before[0]);
            assert(rest@ =~= all.skip(k + 1));
        }
        let e = mount_entry(m);
        let ghost prev = arr@;
        arr.push(e);
        proof {
            assert(arr@.take(start.len() as int) =~= prev.take(start.len() as int));
            assert forall|i: int| 0 <= i < k + 1 implies is_mount_entry(
                #[trigger] arr@[start.len() + i],
                all[i],
            ) by {
                if i < k {
                    assert(arr@[start.len() + i] == prev[start.len() + i]);
                }
            }
            k = k + 1;
        }
    }
}

} // verus!
