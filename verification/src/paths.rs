//! Where things live on disk, and a model of which paths exist.
//!
//! The library never touches the disk. Where a decision depends on whether
//! a file is there, the caller passes the list of paths it found present.

use crate::text::{joined, same_text, texts};
use vstd::prelude::*;
use vstd::string::*;

verus! {

/// The directory that holds the launcher's own files.
pub const CONFIG_DIR: &'static str = "/etc/fvpnc";

/// The manifest of available servers.
pub const CONFIG_CSV: &'static str = "/etc/fvpnc/vpn_config.csv";

/// The credentials file handed to the VPN client.
pub const CONFIG_PATH: &'static str = "/etc/fvpnc/creds.txt";

/// The directory under which the server configs are kept, one directory per
/// protocol.
pub const SERVER_ROOT: &'static str = "/etc/openvpn/";

/// The path of the file `filename` in the directory `directory` under the
/// server root.
pub open spec fn server_path_text(directory: Seq<char>, filename: Seq<char>) -> Seq<char> {
    SERVER_ROOT@ + directory + "/"@ + filename
}

/// The path of the file `filename` in the directory `directory` under the
/// server root.
pub fn server_path(directory: &str, filename: &str) -> (r: String)
    ensures
        r@ == server_path_text(directory@, filename@),
{
    let mut path = joined(SERVER_ROOT, directory);
    path.append("/");
    path.append(filename);
    path
}

/// The set of paths named in a list.
pub open spec fn path_set(paths: Seq<String>) -> Set<Seq<char>> {
    Set::new(|p: Seq<char>| exists|i: int| 0 <= i < paths.len() && (#[trigger] paths[i])@ == p)
}

/// Whether `path` is one of `paths`.
pub fn contains_path(paths: &Vec<String>, path: &str) -> (r: bool)
    ensures
        r == path_set(paths@).contains(path@),
{
    let wanted = String::from_str(path);
    let mut i: usize = 0;
    while i < paths.len()
        invariant
            i <= paths.len(),
            wanted@ == path@,
            forall|k: int| 0 <= k < i ==> (#[trigger] paths@[k])@ != path@,
        decreases paths.len() - i,
    {
        if paths[i] == wanted {
            return true;
        }
        i = i + 1;
    }
    false
}

/// The paths of `wanted[..n]` that are not in `existing`, in order.
pub open spec fn absent(wanted: Seq<Seq<char>>, existing: Set<Seq<char>>, n: int) -> Seq<
    Seq<char>,
>
    decreases n,
{
    if n <= 0 {
        Seq::empty()
    } else if existing.contains(wanted[n - 1]) {
        absent(wanted, existing, n - 1)
    } else {
        absent(wanted, existing, n - 1).push(wanted[n - 1])
    }
}

/// The paths of `wanted` that are not among `existing`, in the order in
/// which `wanted` lists them.
pub fn missing_paths(wanted: &Vec<String>, existing: &Vec<String>) -> (r: Vec<String>)
    ensures
        texts(r@) == absent(texts(wanted@), path_set(existing@), wanted.len() as int),
        forall|p: Seq<char>| #[trigger]
            texts(r@).contains(p) <==> !path_set(existing@).contains(p) && texts(
                wanted@,
            ).contains(p),
{
    let mut out: Vec<String> = Vec::new();
    let mut i: usize = 0;
    while i < wanted.len()
        invariant
            i <= wanted.len(),
            texts(out@) == absent(texts(wanted@), path_set(existing@), i as int),
        decreases wanted.len() - i,
    {
        if !contains_path(existing, wanted[i].as_str()) {
            let ghost before = out@;
            let p = wanted[i].clone();
            out.push(p);
            assert(texts(out@) =~= texts(before).push(wanted@[i as int]@));
        }
        i = i + 1;
    }
    proof {
        let all = texts(wanted@);
        assert forall|p: Seq<char>| #[trigger]
            texts(out@).contains(p) <==> !path_set(existing@).contains(p) && all.contains(
                p,
            ) by {
            lemma_absent_members(all, path_set(existing@), all.len() as int, p);
        }
    }
    out
}

/// Every path reported absent is wanted and does not exist, and every
/// wanted path that does not exist is reported.
pub proof fn lemma_absent_members(
    wanted: Seq<Seq<char>>,
    existing: Set<Seq<char>>,
    n: int,
    p: Seq<char>,
)
    requires
        0 <= n <= wanted.len(),
    ensures
        absent(wanted, existing, n).contains(p) <==> !existing.contains(p) && exists|i: int|
            0 <= i < n && wanted[i] == p,
    decreases n,
{
    if n > 0 {
        lemma_absent_members(wanted, existing, n - 1, p);
        let rest = absent(wanted, existing, n - 1);
        if existing.contains(wanted[n - 1]) {
            if exists|i: int| 0 <= i < n && wanted[i] == p {
                let i = choose|i: int| 0 <= i < n && wanted[i] == p;
                if !existing.contains(p) {
                    assert(i < n - 1);
                }
            }
        } else {
            let all = rest.push(wanted[n - 1]);
            if all.contains(p) {
                let k = choose|k: int| 0 <= k < all.len() && all[k] == p;
                if k < rest.len() {
                    assert(rest[k] == p);
                    assert(rest.contains(p));
                } else {
                    assert(wanted[n - 1] == p);
                }
            }
            if !existing.contains(p) && exists|i: int| 0 <= i < n && wanted[i] == p {
                let i = choose|i: int| 0 <= i < n && wanted[i] == p;
                if i < n - 1 {
                    assert(rest.contains(p));
                    let k = choose|k: int| 0 <= k < rest.len() && rest[k] == p;
                    assert(all[k] == p);
                } else {
                    assert(all[rest.len() as int] == p);
                }
            }
        }
    } else {
        assert(!absent(wanted, existing, n).contains(p));
    }
}

/// Where the last component of `path` starts: just after its last `/`, or
/// at 0 when it has none.
pub open spec fn base_start(path: Seq<char>) -> int
    decreases path.len(),
{
    if path.len() == 0 {
        0
    } else if path.last() == '/' {
        path.len() as int
    } else {
        base_start(path.drop_last())
    }
}

/// The last component of `path`: what follows its last `/`.
pub open spec fn base_name(path: Seq<char>) -> Seq<char> {
    path.subrange(base_start(path), path.len() as int)
}

/// The start of the last component lies inside the path, nothing after it
/// is a `/`, and a `/` stands just before it unless it is the path's start.
pub proof fn lemma_base_start(path: Seq<char>)
    ensures
        0 <= base_start(path) <= path.len(),
        forall|k: int| base_start(path) <= k < path.len() ==> path[k] != '/',
        base_start(path) > 0 ==> path[base_start(path) - 1] == '/',
    decreases path.len(),
{
    if path.len() > 0 && path.last() != '/' {
        let front = path.drop_last();
        lemma_base_start(front);
        assert forall|k: int| base_start(path) <= k < path.len() implies path[k] != '/' by {
            if k < front.len() {
                assert(front[k] == path[k]);
            }
        }
        if base_start(path) > 0 {
            assert(front[base_start(front) - 1] == path[base_start(front) - 1]);
        }
    }
}

/// The start of the last component is the one place that has a `/` just
/// before it, unless it is the path's start, and none after it.
pub proof fn lemma_base_start_is(path: Seq<char>, at: int)
    requires
        0 <= at <= path.len(),
        forall|k: int| at <= k < path.len() ==> path[k] != '/',
        at > 0 ==> path[at - 1] == '/',
    ensures
        base_start(path) == at,
{
    lemma_base_start(path);
    let found = base_start(path);
    if found < at {
        assert(path[at - 1] == '/');
    }
    if at < found {
        assert(path[found - 1] == '/');
    }
}

/// The manifest lies directly in the launcher's directory.
pub proof fn lemma_manifest_folder()
    ensures
        parent_dir(CONFIG_CSV@) == Some(CONFIG_DIR@),
{
    reveal_strlit("/etc/fvpnc/vpn_config.csv");
    reveal_strlit("/etc/fvpnc");
    reveal_strlit(".");
    reveal_strlit("..");
    let path = CONFIG_CSV@;
    lemma_base_start_is(path, 11);
    let stem = path.subrange(0, 11);
    assert(stem.last() == '/');
    assert(stem.drop_last().last() == 'c');
    assert(strip_slashes(stem.drop_last()) == stem.drop_last());
    assert(strip_slashes(stem) == stem.drop_last());
    assert(stem.drop_last() =~= CONFIG_DIR@);
    assert(base_name(path).len() == 14);
}

/// The last component of `path`.
pub fn last_component(path: &str) -> (r: String)
    ensures
        r@ == base_name(path@),
{
    let n = path.unicode_len();
    let mut i: usize = n;
    proof {
        assert(path@.subrange(0, n as int) =~= path@);
    }
    while i > 0 && path.get_char(i - 1) != '/'
        invariant
            i <= n,
            n == path@.len(),
            base_start(path@) == base_start(path@.subrange(0, i as int)),
        decreases i,
    {
        assert(path@.subrange(0, i as int).drop_last() =~= path@.subrange(0, i - 1));
        i = i - 1;
    }
    path.substring_char(i, n).to_owned()
}

/// A last component that can name a file.
pub open spec fn usable_name(name: Seq<char>) -> bool {
    name.len() > 0 && name != "."@ && name != ".."@
}

/// Whether `name` can name a file: it is not empty, `.` or `..`.
pub fn is_usable_name(name: &str) -> (r: bool)
    ensures
        r == usable_name(name@),
{
    !name.is_empty() && !same_text(name, ".") && !same_text(name, "..")
}

/// `s` without the slashes at its end.
pub open spec fn strip_slashes(s: Seq<char>) -> Seq<char>
    decreases s.len(),
{
    if s.len() > 0 && s.last() == '/' {
        strip_slashes(s.drop_last())
    } else {
        s
    }
}

/// The directory that holds `path`: what stands before its last
/// component, without the slashes that part them; `/` when that leaves
/// nothing of a path that began with one; nothing for a bare file name.
/// A path whose last component cannot name a file has no such directory.
pub open spec fn parent_dir(path: Seq<char>) -> Option<Seq<char>> {
    if !usable_name(base_name(path)) {
        None
    } else if base_start(path) == 0 {
        Some(Seq::empty())
    } else if strip_slashes(path.subrange(0, base_start(path))).len() == 0 {
        Some("/"@)
    } else {
        Some(strip_slashes(path.subrange(0, base_start(path))))
    }
}

/// The directory that holds `path`, if its last component can name a file.
pub fn parent_of(path: &str) -> (r: Option<String>)
    ensures
        match r {
            Some(dir) => parent_dir(path@) == Some(dir@),
            None => parent_dir(path@) is None,
        },
{
    let base = last_component(path);
    if !is_usable_name(base.as_str()) {
        return None;
    }
    proof {
        lemma_base_start(path@);
    }
    let n = path.unicode_len();
    let start = n - base.as_str().unicode_len();
    assert(start == base_start(path@));
    if start == 0 {
        let r = String::new();
        assert(r@ =~= Seq::<char>::empty());
        return Some(r);
    }
    let ghost stem = path@.subrange(0, start as int);
    let mut end: usize = start;
    proof {
        assert(stem.subrange(0, end as int) =~= stem);
    }
    while end > 0 && path.get_char(end - 1) == '/'
        invariant
            end <= start <= n,
            n == path@.len(),
            stem == path@.subrange(0, start as int),
            strip_slashes(stem) == strip_slashes(stem.subrange(0, end as int)),
        decreases end,
    {
        assert(stem.subrange(0, end as int).drop_last() =~= stem.subrange(0, end - 1));
        end = end - 1;
    }
    proof {
        assert(stem.subrange(0, end as int) =~= path@.subrange(0, end as int));
    }
    if end == 0 {
        Some(String::from_str("/"))
    } else {
        Some(path.substring_char(0, end).to_owned())
    }
}

} // verus!
