//! The capability table and the path resolver.  The host grants a
//! contiguous run of pre-opened directory descriptors starting at a
//! fixed base; each claims a path prefix.  An absolute path resolves to
//! the capability with the longest claimed prefix that matches it on a
//! whole path segment, together with the remainder of the path.

use vstd::prelude::*;
use crate::text::{lossy_decode, trim_nuls, utf8_lossy, trim_nul_bytes, lemma_trim_nuls_len};

verus! {

use vstd::string::StrSliceExecFns;
use vstd::string::StringExecFns;

/// The first descriptor number the host assigns to a pre-opened
/// directory, after its reserved I/O channels.
pub const BASE_DESCRIPTOR: u32 = 3;

/// How many bytes a claimed path may hold: the fixed size of the
/// buffer the host fills with each pre-opened directory's name.  A
/// longer name is cut at this bound, a documented design limit.
pub const PATH_CLAIM_CAPACITY: usize = 1024;

/// A pre-opened directory capability: the path prefix the host claims
/// for it and the descriptor that reaches it.
pub struct AccessibleDirectory {
    pub path: String,
    pub fd: u32,
}

/// Whether `dirs` is the capability table built from the raw names the
/// host reported, in order: contiguous ascending descriptors from the
/// base, each path the decoded name with its zero padding removed.
pub open spec fn table_matches(dirs: Seq<AccessibleDirectory>, names: Seq<Seq<u8>>) -> bool {
    &&& dirs.len() == names.len()
    &&& forall|i: int|
        0 <= i < dirs.len() ==> (#[trigger] dirs[i]).fd == BASE_DESCRIPTOR as int + i
    &&& forall|i: int|
        0 <= i < dirs.len() ==> (#[trigger] dirs[i]).path@ == lossy_decode(trim_nuls(names[i]))
}

/// Builds the capability table from the raw directory names the host
/// reported, in the order it reported them.  Each name comes from the
/// host's fixed claim buffer, so no claimed path can exceed the
/// capacity.
pub fn accessible_directories(raw_names: &Vec<Vec<u8>>) -> (r: Vec<AccessibleDirectory>)
    requires
        raw_names@.len() + BASE_DESCRIPTOR as int <= u32::MAX as int,
        forall|i: int|
            0 <= i < raw_names@.len() ==> (#[trigger] raw_names@[i])@.len()
                <= PATH_CLAIM_CAPACITY,
    ensures
        table_matches(r@, raw_names@.map_values(|v: Vec<u8>| v@)),
        forall|i: int|
            0 <= i < r@.len() ==> (#[trigger] r@[i]).path@.len() <= PATH_CLAIM_CAPACITY,
{
    let mut dirs: Vec<AccessibleDirectory> = Vec::new();
    let mut i: usize = 0;
    while i < raw_names.len()
        invariant
            i <= raw_names.len(),
            raw_names@.len() + BASE_DESCRIPTOR as int <= u32::MAX as int,
            forall|k: int|
                0 <= k < raw_names@.len() ==> (#[trigger] raw_names@[k])@.len()
                    <= PATH_CLAIM_CAPACITY,
            dirs.len() == i,
            forall|k: int|
                0 <= k < i ==> (#[trigger] dirs[k]).fd == BASE_DESCRIPTOR as int + k,
            forall|k: int|
                0 <= k < i ==> (#[trigger] dirs[k]).path@ == lossy_decode(trim_nuls(raw_names@[k]@)),
            forall|k: int|
                0 <= k < i ==> (#[trigger] dirs[k]).path@.len() <= PATH_CLAIM_CAPACITY,
        decreases raw_names.len() - i,
    {
        let trimmed = trim_nul_bytes(&raw_names[i]);
        let path = utf8_lossy(&trimmed);
        proof {
            lemma_trim_nuls_len(raw_names@[i as int]@);
        }
        dirs.push(AccessibleDirectory { path, fd: BASE_DESCRIPTOR + i as u32 });
        i = i + 1;
    }
    dirs
}

/// Enumerating an unchanged host twice gives the same table: the
/// capability list is a pure function of the names the host reports.
pub proof fn lemma_enumeration_idempotent(
    first: Seq<AccessibleDirectory>,
    second: Seq<AccessibleDirectory>,
    names: Seq<Seq<u8>>,
)
    requires
        table_matches(first, names),
        table_matches(second, names),
    ensures
        first.len() == second.len(),
        forall|i: int|
            0 <= i < first.len() ==> (#[trigger] first[i]).fd == second[i].fd && first[i].path@
                == second[i].path@,
{
}

/// Whether capability `d` matches `path`: its claimed path is a literal
/// prefix of `path`, and the match ends at a whole segment — at the end
/// of `path` or just before a separator.
pub open spec fn candidate(path: Seq<char>, d: AccessibleDirectory) -> bool {
    &&& d.path@.len() <= path.len()
    &&& path.take(d.path@.len() as int) == d.path@
    &&& (d.path@.len() == path.len() || path[d.path@.len() as int] == '/')
}

/// Whether any capability in `dirs` matches `path`.
pub open spec fn has_candidate(path: Seq<char>, dirs: Seq<AccessibleDirectory>) -> bool {
    exists|i: int| 0 <= i < dirs.len() && candidate(path, #[trigger] dirs[i])
}

/// Whether `dirs[i]` is the capability that `path` resolves to: it
/// matches, no match is longer, and it is the first among matches of
/// its length.
pub open spec fn best_choice(path: Seq<char>, dirs: Seq<AccessibleDirectory>, i: int) -> bool {
    &&& 0 <= i < dirs.len()
    &&& candidate(path, dirs[i])
    &&& forall|j: int|
        0 <= j < dirs.len() && candidate(path, #[trigger] dirs[j]) ==> dirs[j].path@.len()
            <= dirs[i].path@.len()
    &&& forall|j: int|
        0 <= j < i && candidate(path, #[trigger] dirs[j]) ==> dirs[j].path@.len()
            < dirs[i].path@.len()
}

/// Decides whether capability `d` matches `path`.
fn is_candidate(path: &str, d: &AccessibleDirectory) -> (r: bool)
    ensures
        r == candidate(path@, *d),
{
    let m = d.path.as_str().unicode_len();
    let n = path.unicode_len();
    if m > n {
        return false;
    }
    let mut j: usize = 0;
    while j < m
        invariant
            j <= m == d.path@.len() <= n == path@.len(),
            forall|k: int| 0 <= k < j ==> path@[k] == d.path@[k],
        decreases m - j,
    {
        if path.get_char(j) != d.path.as_str().get_char(j) {
            assert(path@.take(m as int)[j as int] != d.path@[j as int]);
            return false;
        }
        j = j + 1;
    }
    assert(path@.take(m as int) =~= d.path@);
    if m == n {
        true
    } else {
        path.get_char(m) == '/'
    }
}

/// Finds the index of the capability that `path` resolves to: the
/// longest matching prefix, first-seen on equal lengths.  Returns
/// `None` exactly when no capability matches.
pub fn owning_index(path: &str, dirs: &Vec<AccessibleDirectory>) -> (r: Option<usize>)
    ensures
        r is Some <==> has_candidate(path@, dirs@),
        r matches Some(i) ==> best_choice(path@, dirs@, i as int),
{
    let mut best: Option<usize> = None;
    let mut best_len: usize = 0;
    let mut i: usize = 0;
    while i < dirs.len()
        invariant
            i <= dirs.len(),
            best is None ==> forall|j: int| 0 <= j < i ==> !candidate(path@, #[trigger] dirs@[j]),
            best matches Some(b) ==> {
                &&& (b as int) < i as int
                &&& candidate(path@, dirs@[b as int])
                &&& best_len == dirs@[b as int].path@.len()
                &&& forall|j: int|
                    0 <= j < i && candidate(path@, #[trigger] dirs@[j]) ==> dirs@[j].path@.len()
                        <= best_len
                &&& forall|j: int|
                    0 <= j < b && candidate(path@, #[trigger] dirs@[j]) ==> dirs@[j].path@.len()
                        < best_len
            },
        decreases dirs.len() - i,
    {
        let d = &dirs[i];
        if is_candidate(path, d) {
            let m = d.path.as_str().unicode_len();
            let better = match best {
                Option::None => true,
                Option::Some(_) => m > best_len,
            };
            if better {
                best = Some(i);
                best_len = m;
            }
        }
        i = i + 1;
    }
    best
}

/// Resolves `path` to its owning capability: the one with the longest
/// matching prefix, first-seen on equal lengths.  Returns `None`
/// exactly when no capability matches.
pub fn get_owning_directory(path: &str, dirs: &Vec<AccessibleDirectory>) -> (r: Option<
    AccessibleDirectory,
>)
    ensures
        r is Some <==> has_candidate(path@, dirs@),
        r matches Some(d) ==> exists|i: int|
            #[trigger] best_choice(path@, dirs@, i) && d.fd == dirs@[i].fd && d.path@
                == dirs@[i].path@,
{
    match owning_index(path, dirs) {
        Some(i) => {
            let d = &dirs[i];
            Some(AccessibleDirectory { path: d.path.clone(), fd: d.fd })
        },
        None => None,
    }
}

/// The remainder of `path` past the capability prefix `base_dir`: the
/// path relative to that capability's directory.
pub fn relative_path(base_dir: &str, path: &str) -> (r: String)
    requires
        base_dir@.len() <= path@.len(),
    ensures
        r@ == path@.skip(base_dir@.len() as int),
{
    let m = base_dir.unicode_len();
    let n = path.unicode_len();
    String::from_str(path.substring_char(m, n))
}

} // verus!

