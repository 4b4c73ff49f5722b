use vstd::prelude::*;
use crate::json::Json;
use crate::merge::MergeError;

verus! {

/// The position of the first `=` in `s` at or after `i`, or the length of `s`
/// when there is none.
pub open spec fn sep_from(s: Seq<char>, i: int) -> int
    decreases s.len() - i,
{
    if i < 0 || i >= s.len() {
        s.len() as int
    } else if s[i] == '=' {
        i
    } else {
        sep_from(s, i + 1)
    }
}

/// The position of the first `=` in `s`, or its length when there is none.
pub open spec fn sep_index(s: Seq<char>) -> int {
    sep_from(s, 0)
}

/// Whether `s` holds a `=` at all.
pub open spec fn has_separator(s: Seq<char>) -> bool {
    sep_index(s) < s.len()
}

/// Whether `s` is an assignment `KEY=VALUE` with a non-empty key.
pub open spec fn is_assignment(s: Seq<char>) -> bool {
    has_separator(s) && sep_index(s) > 0
}

/// The key of an assignment: what stands before its first `=`.
pub open spec fn env_key(s: Seq<char>) -> Seq<char> {
    s.take(sep_index(s))
}

/// What is wrong with an environment string that is not an assignment.
#[derive(Debug, Clone, Copy, PartialEq, Eq, Structural)]
pub enum EnvFault {
    /// No `=` at all.
    MissingSeparator,
    /// The `=` comes first: the key is empty.
    EmptyKey,
}

/// The fault of a string, if it is not an assignment.
pub open spec fn env_fault(s: Seq<char>) -> Option<EnvFault> {
    if !has_separator(s) {
        Some(EnvFault::MissingSeparator)
    } else if sep_index(s) == 0 {
        Some(EnvFault::EmptyKey)
    } else {
        None
    }
}

/// The position of the first `=` in `s`, or its length.
pub fn separator_index(s: &str) -> (r: usize)
    ensures
        r as int == sep_index(s@),
        r <= s@.len(),
{
    let n = s.unicode_len();
    let mut i: usize = 0;
    while i < n
        invariant
            n == s@.len(),
            i <= n,
            sep_from(s@, i as int) == sep_index(s@),
        decreases n - i,
    {
        if s.get_char(i) == '=' {
            return i;
        }
        i = i + 1;
    }
    i
}

/// Checks that `s` has the shape `KEY=VALUE` with a non-empty key.
pub fn validate_kv_format(s: &str) -> (r: Result<(), EnvFault>)
    ensures
        r is Ok <==> is_assignment(s@),
        r is Err ==> Some(r->Err_0) == env_fault(s@),
{
    let p = separator_index(s);
    if p == s.unicode_len() {
        Err(EnvFault::MissingSeparator)
    } else if p == 0 {
        Err(EnvFault::EmptyKey)
    } else {
        Ok(())
    }
}


/// The position of the first string at or after `i` that is not an assignment.
pub open spec fn first_fault_from(ns: Seq<String>, i: int) -> Option<int>
    decreases ns.len() - i,
{
    if i < 0 || i >= ns.len() {
        None
    } else if !is_assignment(ns[i]@) {
        Some(i)
    } else {
        first_fault_from(ns, i + 1)
    }
}

/// The position of the first string that is not an assignment.
pub open spec fn first_fault(ns: Seq<String>) -> Option<int> {
    first_fault_from(ns, 0)
}

/// The error that reports `s`, a string that is not an assignment.
pub open spec fn fault_error(s: String) -> MergeError {
    if !has_separator(s@) {
        MergeError::InvalidEnvFormat(s)
    } else {
        MergeError::EmptyEnvKey
    }
}

/// Lemma: what `first_fault_from` finds, and that all before it are assignments.
pub proof fn lemma_first_fault_from(ns: Seq<String>, j: int)
    requires
        0 <= j,
    ensures
        first_fault_from(ns, j) matches Some(i) ==> j <= i < ns.len() && !is_assignment(ns[i]@),
        first_fault_from(ns, j) is None ==> forall|t: int|
            j <= t < ns.len() ==> is_assignment(#[trigger] ns[t]@),
    decreases ns.len() - j,
{
    if j < ns.len() {
        lemma_first_fault_from(ns, j + 1);
    }
}

/// Checks every string of the batch before any is used: hands the batch back
/// when each is an assignment, else reports the first that is not.
pub fn validate_env_strings(entries: Vec<String>) -> (r: Result<Vec<String>, MergeError>)
    ensures
        first_fault(entries@) is None ==> r == Ok::<Vec<String>, MergeError>(entries),
        first_fault(entries@) matches Some(i) ==> r == Err::<Vec<String>, MergeError>(
            fault_error(entries@[i]),
        ),
        r is Ok <==> forall|i: int|
            0 <= i < entries@.len() ==> is_assignment(#[trigger] entries@[i]@),
{
    proof {
        lemma_first_fault_from(entries@, 0);
    }
    let mut i: usize = 0;
    while i < entries.len()
        invariant
            i <= entries@.len(),
            first_fault_from(entries@, i as int) == first_fault(entries@),
        decreases entries@.len() - i,
    {
        match validate_kv_format(entries[i].as_str()) {
            Ok(()) => {},
            Err(EnvFault::MissingSeparator) => {
                let mut entries = entries;
                let s = entries.remove(i);
                return Err(MergeError::InvalidEnvFormat(s));
            },
            Err(EnvFault::EmptyKey) => {
                return Err(MergeError::EmptyEnvKey);
            },
        }
        i = i + 1;
    }
    Ok(entries)
}

/// Whether `j` is a string whose key is `k`.
pub open spec fn entry_has_key(j: Json, k: Seq<char>) -> bool {
    j matches Json::Str(s) && has_separator(s@) && env_key(s@) == k
}

/// The last position below `i` of a string whose key is `k`.
pub open spec fn last_key_below(env: Seq<Json>, k: Seq<char>, i: int) -> Option<int>
    decreases i,
{
    if i <= 0 {
        None
    } else if entry_has_key(env[i - 1], k) {
        Some(i - 1)
    } else {
        last_key_below(env, k, i - 1)
    }
}

/// One upsert: the assignment `n` replaces the last string with its key, in
/// place, or comes last where no string has that key.
pub open spec fn upsert(env: Seq<Json>, n: String) -> Seq<Json> {
    match last_key_below(env, env_key(n@), env.len() as int) {
        Some(i) => env.update(i, Json::Str(n)),
        None => env.push(Json::Str(n)),
    }
}

/// The upserts of `ns`, in order.
pub open spec fn upsert_all(env: Seq<Json>, ns: Seq<String>) -> Seq<Json>
    decreases ns.len(),
{
    if ns.len() == 0 {
        env
    } else {
        upsert(upsert_all(env, ns.drop_last()), ns.last())
    }
}

/// Within a batch the last write wins: of two assignments to a key that the
/// environment does not hold yet, only the second is left, appended once.
pub proof fn lemma_last_write_wins(env: Seq<Json>, a: String, b: String)
    requires
        is_assignment(a@),
        is_assignment(b@),
        env_key(a@) == env_key(b@),
        last_key_below(env, env_key(a@), env.len() as int) is None,
    ensures
        upsert_all(env, seq![a, b]) == env.push(Json::Str(b)),
{
    let k = env_key(a@);
    assert(seq![a, b].drop_last() =~= seq![a]);
    assert(seq![a].drop_last() =~= Seq::<String>::empty());
    assert(seq![a].last() == a);
    assert(seq![a, b].last() == b);
    assert(upsert_all(env, Seq::<String>::empty()) == env);
    assert(upsert(env, a) == env.push(Json::Str(a)));
    assert(upsert_all(env, seq![a]) == env.push(Json::Str(a)));
    let mid = env.push(Json::Str(a));
    assert(entry_has_key(mid[env.len() as int], k));
    assert(last_key_below(mid, k, mid.len() as int) == Some(env.len() as int));
    assert(mid.update(env.len() as int, Json::Str(b)) =~= env.push(Json::Str(b)));
}

/// Whether `j` is a string whose key is the key of `n`, which ends at `p`.
fn has_key(j: &Json, n: &str, p: usize) -> (r: bool)
    requires
        p as int == sep_index(n@),
        is_assignment(n@),
    ensures
        r == entry_has_key(*j, env_key(n@)),
{
    match j {
        Json::Str(st) => {
            let s = st.as_str();
            let q = separator_index(s);
            if q == s.unicode_len() {
                return false;
            }
            if q != p {
                assert(env_key(s@).len() == q);
                return false;
            }
            let mut t: usize = 0;
            while t < p
                invariant
                    p < n@.len(),
                    p < s@.len(),
                    s@ == st@,
                    *j == Json::Str(*st),
                    p as int == sep_index(s@),
                    p as int == sep_index(n@),
                    t <= p,
                    forall|u: int| 0 <= u < t ==> s@[u] == n@[u],
                decreases p - t,
            {
                if s.get_char(t) != n.get_char(t) {
                    assert(env_key(s@)[t as int] != env_key(n@)[t as int]);
                    return false;
                }
                t = t + 1;
            }
            assert(s@.take(p as int) =~= n@.take(p as int));
            true
        },
        _ => false,
    }
}

/// The last position of a string whose key is the key of `n`, which ends at `p`.
fn find_last_key(env: &Vec<Json>, n: &str, p: usize) -> (r: Option<usize>)
    requires
        p as int == sep_index(n@),
        is_assignment(n@),
    ensures
        r matches Some(i) ==> i < env@.len() && last_key_below(
            env@,
            env_key(n@),
            env@.len() as int,
        ) == Some(i as int),
        r is None ==> last_key_below(env@, env_key(n@), env@.len() as int) is None,
{
    let mut i: usize = env.len();
    while i > 0
        invariant
            i <= env@.len(),
            p as int == sep_index(n@),
            is_assignment(n@),
            last_key_below(env@, env_key(n@), i as int) == last_key_below(
                env@,
                env_key(n@),
                env@.len() as int,
            ),
        decreases i,
    {
        if has_key(&env[i - 1], n, p) {
            return Some(i - 1);
        }
        i = i - 1;
    }
    None
}

/// Applies one upsert of the assignment `n`.
fn upsert_env(env: &mut Vec<Json>, n: String)
    requires
        is_assignment(n@),
    ensures
        final(env)@ == upsert(old(env)@, n),
{
    let p = separator_index(n.as_str());
    match find_last_key(env, n.as_str(), p) {
        Some(idx) => {
            env.set(idx, Json::Str(n));
        },
        None => {
            env.push(Json::Str(n));
        },
    }
}

/// Applies the upserts of a batch of assignments, in order.
pub fn merge_env_entries(env: &mut Vec<Json>, ns: Vec<String>)
    requires
        forall|i: int| 0 <= i < ns@.len() ==> is_assignment(#[trigger] ns@[i]@),
    ensures
        final(env)@ == upsert_all(old(env)@, ns@),
{
    let mut rest = ns;
    let ghost all = ns@;
    let ghost k: int = 0;
    while rest.len() > 0
        invariant
            0 <= k <= all.len(),
            rest@ == all.skip(k),
            env@ == upsert_all(old(env)@, all.take(k)),
            forall|i: int| 0 <= i < all.len() ==> is_assignment(#[trigger] all[i]@),
        decreases rest@.len(),
    {
        let ghost before = rest@;
        let n = rest.remove(0);
        proof {
            assert(n == before[0]);
            assert(before[0] == all[k]);
            assert(all.take(k + 1).drop_last() =~= all.take(k));
            assert(all.take(k + 1).last() == all[k]);
            assert(rest@ =~= all.skip(k + 1));
            k = k + 1;
        }
        upsert_env(env, n);
    }
    proof {
        assert(all.take(k) =~= all);
    }
}

} // verus!
