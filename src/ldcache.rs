use vstd::prelude::*;
use vstd::string::*;

verus! {

/// Whether a path is absolute: it starts at the root `/`.
pub open spec fn is_absolute_path(p: Seq<char>) -> bool {
    p.len() > 0 && p[0] == '/'
}

/// `p` taken relative to `base`: `p` itself where it is absolute, else `p`
/// after `base` and a `/`, which is left out where `base` is empty or
/// already ends with one.
pub open spec fn joined_path(base: Seq<char>, p: Seq<char>) -> Seq<char> {
    if is_absolute_path(p) {
        p
    } else if base.len() == 0 || base.last() == '/' {
        base + p
    } else {
        base + seq!['/'] + p
    }
}

/// Joins `p` onto `base`.
pub fn join_path(base: &str, p: &str) -> (r: String)
    ensures
        r@ == joined_path(base@, p@),
{
    let n = base.unicode_len();
    if p.unicode_len() > 0 && p.get_char(0) == '/' {
        return p.to_owned();
    }
    let mut out = base.to_owned();
    if n > 0 && base.get_char(n - 1) != '/' {
        out.append("/");
        proof {
            reveal_strlit("/");
        }
    }
    out.append(p);
    proof {
        if n > 0 && base@.last() != '/' {
            assert(out@ =~= base@ + seq!['/'] + p@);
        }
    }
    out
}

/// The container's root filesystem: the configured root path, taken
/// relative to the bundle directory unless it is absolute.
pub fn resolve_rootfs(bundle: &str, root_path: &str) -> (r: String)
    ensures
        r@ == joined_path(bundle@, root_path@),
{
    join_path(bundle, root_path)
}

/// The linker cache inside a root filesystem.
pub fn cache_path(rootfs: &str) -> (r: String)
    ensures
        r@ == joined_path(rootfs@, "etc/ld.so.cache"@),
{
    join_path(rootfs, "etc/ld.so.cache")
}

/// The cache-rebuilding program: the configured one, else `ldconfig`.
pub fn ldconfig_program(configured: Option<String>) -> (r: String)
    ensures
        configured matches Some(p) ==> r == p,
        configured is None ==> r@ == "ldconfig"@,
{
    match configured {
        Some(p) => p,
        None => "ldconfig".to_owned(),
    }
}

/// How running an outside program went.
#[derive(Debug, Clone, Copy, PartialEq, Eq, Structural)]
pub enum LaunchOutcome {
    /// It ran and ended, with an exit code unless a signal ended it.
    Exited(Option<i32>),
    /// The program is not in the search path.
    NotFound,
    /// It could not be started for another reason.
    Failed,
}

/// The hook's exit status for how the cache rebuild went: the program's own
/// code, 127 where the program is missing, 1 otherwise.
pub fn ldconfig_exit_code(outcome: LaunchOutcome) -> (r: i32)
    ensures
        outcome matches LaunchOutcome::Exited(Some(c)) ==> r == c,
        outcome matches LaunchOutcome::Exited(None) ==> r == 1,
        outcome is NotFound ==> r == 127,
        outcome is Failed ==> r == 1,
{
    match outcome {
        LaunchOutcome::Exited(Some(c)) => c,
        LaunchOutcome::Exited(None) => 1,
        LaunchOutcome::NotFound => 127,
        LaunchOutcome::Failed => 1,
    }
}

} // verus!
