use vstd::prelude::*;
use crate::actions::{expand, expand_spec};
use crate::creds::opt_str_view;
use crate::text::{contains, occurs_at, str_contains};

verus! {

/// A path separator (Windows accepts both).
pub open spec fn is_sep(c: char) -> bool {
    c == '\\' || c == '/'
}

/// A path segment that names a component: not empty and not `.`.
pub open spec fn keeps(seg: Seq<char>) -> bool {
    seg.len() > 0 && seg != seq!['.']
}

/// The components of `s` still to come, given the segment `cur` read so far and the
/// components `acc` already found.
pub open spec fn split_from(s: Seq<char>, cur: Seq<char>, acc: Seq<Seq<char>>) -> Seq<Seq<char>>
    decreases s.len(),
{
    if s.len() == 0 {
        if keeps(cur) { acc.push(cur) } else { acc }
    } else if is_sep(s[0]) {
        split_from(s.drop_first(), seq![], if keeps(cur) { acc.push(cur) } else { acc })
    } else {
        split_from(s.drop_first(), cur.push(s[0]), acc)
    }
}

/// A relative path that begins with a `.` component (`.` alone, or `.` then a separator).
pub open spec fn starts_with_cur_dir(s: Seq<char>) -> bool {
    s.len() > 0 && s[0] == '.' && (s.len() == 1 || is_sep(s[1]))
}

/// The path begins with a drive prefix: an ASCII letter and `:`.
pub open spec fn has_drive(s: Seq<char>) -> bool {
    s.len() >= 2 && (('a' <= s[0] && s[0] <= 'z') || ('A' <= s[0] && s[0] <= 'Z')) && s[1] == ':'
}

/// ASCII upper case of one character (`u8::to_ascii_uppercase` on a drive letter).
pub open spec fn ascii_upper(c: char) -> char {
    if 'a' <= c && c <= 'z' {
        ((c as u32) - 32) as char
    } else {
        c
    }
}

/// The drive prefix of a path as a component (its letter in upper case, as
/// `Path::components` parses a `Disk` prefix), and the rest of the path.
pub open spec fn drive_split(s: Seq<char>) -> (Seq<Seq<char>>, Seq<char>) {
    if has_drive(s) {
        (seq![seq![ascii_upper(s[0]), ':']], s.subrange(2, s.len() as int))
    } else {
        (seq![], s)
    }
}

/// The leading component of a path without its drive: a root marker `\` when it starts
/// with a separator, a `.` when it starts with a `.` component (`Path::components` keeps a
/// leading `.`), none otherwise.
pub open spec fn lead_of(rest: Seq<char>) -> Seq<Seq<char>> {
    if rest.len() > 0 && is_sep(rest[0]) {
        seq![seq!['\\']]
    } else if starts_with_cur_dir(rest) {
        seq![seq!['.']]
    } else {
        seq![]
    }
}

/// The components of a path: its drive (letter in upper case) if any, then a root marker
/// or a leading `.` as `lead_of` says, then its separator-free segments, empty ones and
/// other `.` left out.
pub open spec fn components(s: Seq<char>) -> Seq<Seq<char>> {
    let (drive, rest) = drive_split(s);
    split_from(rest, seq![], drive + lead_of(rest))
}

/// `a` is a prefix of `b`.
pub open spec fn is_prefix_of<T>(a: Seq<T>, b: Seq<T>) -> bool {
    a.len() <= b.len() && b.subrange(0, a.len() as int) == a
}

/// `path` lies under `root`: the components of `root` begin those of `path` (as
/// `Path::starts_with` compares them; case-sensitive except for the drive letter).
pub open spec fn path_starts_with(path: Seq<char>, root: Seq<char>) -> bool {
    is_prefix_of(components(root), components(path))
}

fn char_is_sep(c: char) -> (b: bool)
    ensures
        b == is_sep(c),
{
    c == '\\' || c == '/'
}

fn seg_keeps(seg: &Vec<char>) -> (b: bool)
    ensures
        b == keeps(seg@),
{
    if seg.len() == 0 {
        return false;
    }
    if seg.len() == 1 && seg[0] == '.' {
        proof {
            assert(seg@ =~= seq!['.']);
        }
        return false;
    }
    proof {
        if seg@.len() == 1 {
            assert(seg@ != seq!['.'] || seg@[0] == '.');
        }
    }
    true
}

/// The components of a path, each as its characters.
pub fn path_components(s: &str) -> (r: Vec<Vec<char>>)
    ensures
        r@.len() == components(s@).len(),
        forall|i: int| 0 <= i < r@.len() ==> #[trigger] r@[i]@ == components(s@)[i],
{
    let full = s.unicode_len();
    let mut acc: Vec<Vec<char>> = Vec::new();
    let mut d: usize = 0;
    if full >= 2 && s.get_char(1) == ':' {
        let c0 = s.get_char(0);
        if ('a' <= c0 && c0 <= 'z') || ('A' <= c0 && c0 <= 'Z') {
            let mut drive: Vec<char> = Vec::new();
            let up = if 'a' <= c0 && c0 <= 'z' {
                let b: u8 = c0 as u8;
                let u: u8 = b - 32;
                u as char
            } else {
                c0
            };
            drive.push(up);
            drive.push(':');
            proof {
                assert(drive@ =~= seq![ascii_upper(s@[0]), ':']);
            }
            acc.push(drive);
            d = 2;
        }
    }
    let rest = s.substring_char(d, full);
    let ghost drive_comps = Seq::new(acc@.len(), |i: int| acc@[i]@);
    proof {
        assert(drive_comps =~= drive_split(s@).0);
        if d == 0 {
            assert(s@.subrange(0, full as int) =~= s@);
        }
        assert(rest@ == drive_split(s@).1);
    }
    let n = rest.unicode_len();
    if n > 0 && char_is_sep(rest.get_char(0)) {
        let mut marker: Vec<char> = Vec::new();
        marker.push('\\');
        acc.push(marker);
    } else if n > 0 && rest.get_char(0) == '.' && (n == 1 || char_is_sep(rest.get_char(1))) {
        let mut marker: Vec<char> = Vec::new();
        marker.push('.');
        acc.push(marker);
    }
    proof {
        assert(Seq::new(acc@.len(), |i: int| acc@[i]@) =~= drive_comps + lead_of(rest@));
        assert(rest@.subrange(0, n as int) =~= rest@);
    }
    let mut cur: Vec<char> = Vec::new();
    let mut i: usize = 0;
    while i < n
        invariant
            n == rest@.len(),
            i <= n,
            components(s@) == split_from(
                rest@.subrange(i as int, n as int),
                cur@,
                Seq::new(acc@.len(), |k: int| acc@[k]@),
            ),
        decreases n - i,
    {
        let ghost tail = rest@.subrange(i as int, n as int);
        let ghost accv = Seq::new(acc@.len(), |k: int| acc@[k]@);
        let c = rest.get_char(i);
        proof {
            assert(tail[0] == c);
            assert(tail.drop_first() =~= rest@.subrange(i + 1, n as int));
        }
        if char_is_sep(c) {
            if seg_keeps(&cur) {
                let done = cur;
                acc.push(done);
                proof {
                    assert(Seq::new(acc@.len(), |k: int| acc@[k]@) =~= accv.push(done@));
                }
            }
            cur = Vec::new();
            proof {
                assert(cur@ =~= seq![]);
            }
        } else {
            cur.push(c);
        }
        i = i + 1;
    }
    let ghost accv = Seq::new(acc@.len(), |k: int| acc@[k]@);
    proof {
        assert(rest@.subrange(n as int, n as int).len() == 0);
    }
    if seg_keeps(&cur) {
        let done = cur;
        acc.push(done);
        proof {
            assert(Seq::new(acc@.len(), |k: int| acc@[k]@) =~= accv.push(done@));
        }
    }
    proof {
        assert(components(s@) =~= Seq::new(acc@.len(), |k: int| acc@[k]@));
    }
    acc
}

fn chars_equal(a: &Vec<char>, b: &Vec<char>) -> (r: bool)
    ensures
        r == (a@ == b@),
{
    if a.len() != b.len() {
        return false;
    }
    let mut k: usize = 0;
    while k < a.len()
        invariant
            a@.len() == b@.len(),
            k <= a@.len(),
            forall|q: int| 0 <= q < k ==> a@[q] == b@[q],
        decreases a@.len() - k,
    {
        if a[k] != b[k] {
            return false;
        }
        k = k + 1;
    }
    proof {
        assert(a@ =~= b@);
    }
    true
}

/// Whether `path` lies under `root` (component-wise prefix).
pub fn path_is_under(path: &str, root: &str) -> (b: bool)
    ensures
        b == path_starts_with(path@, root@),
{
    let pc = path_components(path);
    let rc = path_components(root);
    let ghost pcs = components(path@);
    let ghost rcs = components(root@);
    if rc.len() > pc.len() {
        return false;
    }
    let mut k: usize = 0;
    while k < rc.len()
        invariant
            pcs == components(path@),
            rcs == components(root@),
            rc@.len() == rcs.len(),
            pc@.len() == pcs.len(),
            rcs.len() <= pcs.len(),
            forall|i: int| 0 <= i < rc@.len() ==> #[trigger] rc@[i]@ == rcs[i],
            forall|i: int| 0 <= i < pc@.len() ==> #[trigger] pc@[i]@ == pcs[i],
            k <= rc@.len(),
            forall|q: int| 0 <= q < k ==> rcs[q] == pcs[q],
        decreases rc@.len() - k,
    {
        if !chars_equal(&rc[k], &pc[k]) {
            proof {
                assert(rc@[k as int]@ == rcs[k as int]);
                assert(pc@[k as int]@ == pcs[k as int]);
                assert(pcs.subrange(0, rcs.len() as int)[k as int] != rcs[k as int]);
                assert(pcs.subrange(0, rcs.len() as int) != rcs);
                assert(!is_prefix_of(rcs, pcs));
            }
            return false;
        }
        k = k + 1;
    }
    proof {
        assert(pcs.subrange(0, rcs.len() as int) =~= rcs);
    }
    true
}

/// The path lies inside a build-output or VCS folder (`node_modules`, `.git`, `target`,
/// `dist`, `build`, `.svelte-kit`, with either separator).
pub open spec fn is_noise_spec(p: Seq<char>) -> bool {
    ||| contains(p, "\\node_modules\\"@)
    ||| contains(p, "/node_modules/"@)
    ||| contains(p, "\\.git\\"@)
    ||| contains(p, "/.git/"@)
    ||| contains(p, "\\target\\"@)
    ||| contains(p, "/target/"@)
    ||| contains(p, "\\dist\\"@)
    ||| contains(p, "/dist/"@)
    ||| contains(p, "\\build\\"@)
    ||| contains(p, "/build/"@)
    ||| contains(p, "\\.svelte-kit\\"@)
    ||| contains(p, "/.svelte-kit/"@)
}

/// A path with a build or VCS folder anywhere in it is noise: `node_modules`, `.git`,
/// `target`, `dist`, `build` or `.svelte-kit` between two separators of the same kind
/// (`\` or `/`).
pub proof fn law_noise_folders(p: Seq<char>, k: int)
    ensures
        occurs_at(p, "\\node_modules\\"@, k) ==> is_noise_spec(p),
        occurs_at(p, "/node_modules/"@, k) ==> is_noise_spec(p),
        occurs_at(p, "\\.git\\"@, k) ==> is_noise_spec(p),
        occurs_at(p, "/.git/"@, k) ==> is_noise_spec(p),
        occurs_at(p, "\\target\\"@, k) ==> is_noise_spec(p),
        occurs_at(p, "/target/"@, k) ==> is_noise_spec(p),
        occurs_at(p, "\\dist\\"@, k) ==> is_noise_spec(p),
        occurs_at(p, "/dist/"@, k) ==> is_noise_spec(p),
        occurs_at(p, "\\build\\"@, k) ==> is_noise_spec(p),
        occurs_at(p, "/build/"@, k) ==> is_noise_spec(p),
        occurs_at(p, "\\.svelte-kit\\"@, k) ==> is_noise_spec(p),
        occurs_at(p, "/.svelte-kit/"@, k) ==> is_noise_spec(p),
{
}

/// Whether a changed path is noise (build artefacts or VCS internals).
pub fn is_noise(path: &str) -> (b: bool)
    ensures
        b == is_noise_spec(path@),
{
    str_contains(path, "\\node_modules\\") || str_contains(path, "/node_modules/")
        || str_contains(path, "\\.git\\") || str_contains(path, "/.git/")
        || str_contains(path, "\\target\\") || str_contains(path, "/target/")
        || str_contains(path, "\\dist\\") || str_contains(path, "/dist/")
        || str_contains(path, "\\build\\") || str_contains(path, "/build/")
        || str_contains(path, "\\.svelte-kit\\") || str_contains(path, "/.svelte-kit/")
}

/// The id of the first root (in order) that `path` lies under, if any.
pub open spec fn project_for_path_spec(roots: Seq<(String, i64)>, path: Seq<char>) -> Option<i64>
    decreases roots.len(),
{
    if roots.len() == 0 {
        None
    } else if path_starts_with(path, roots[0].0@) {
        Some(roots[0].1)
    } else {
        project_for_path_spec(roots.drop_first(), path)
    }
}

/// The project whose root folder contains `path`: the first matching root wins.
pub fn project_for_path(roots: &[(String, i64)], path: &str) -> (r: Option<i64>)
    ensures
        r == project_for_path_spec(roots@, path@),
{
    let n = roots.len();
    let mut i: usize = 0;
    proof {
        assert(roots@.subrange(0, n as int) =~= roots@);
    }
    while i < n
        invariant
            n == roots@.len(),
            i <= n,
            project_for_path_spec(roots@, path@) == project_for_path_spec(
                roots@.subrange(i as int, n as int),
                path@,
            ),
        decreases n - i,
    {
        let ghost rest = roots@.subrange(i as int, n as int);
        proof {
            assert(rest[0] == roots@[i as int]);
            assert(rest.drop_first() =~= roots@.subrange(i + 1, n as int));
        }
        if path_is_under(path, roots[i].0.as_str()) {
            return Some(roots[i].1);
        }
        i = i + 1;
    }
    None
}

/// A project is changed by a batch of file events when some event path in it is not
/// noise.
pub open spec fn changed_by(roots: Seq<(String, i64)>, paths: Seq<String>, id: i64) -> bool {
    exists|k: int|
        0 <= k < paths.len() && !is_noise_spec(paths[k]@) && project_for_path_spec(roots, paths[k]@)
            == Some(id)
}

/// The projects touched by a batch of file-change events, each once (noise is ignored;
/// the order of the list is not part of the contract).
pub fn changed_projects(roots: &[(String, i64)], paths: &[String]) -> (r: Vec<i64>)
    ensures
        r@.no_duplicates(),
        forall|id: i64| r@.contains(id) <==> changed_by(roots@, paths@, id),
{
    let mut out: Vec<i64> = Vec::new();
    let n = paths.len();
    let mut k: usize = 0;
    while k < n
        invariant
            n == paths@.len(),
            k <= n,
            out@.no_duplicates(),
            forall|id: i64| out@.contains(id) <==> changed_by(roots@, paths@.subrange(0, k as int), id),
        decreases n - k,
    {
        let ghost before = out@;
        let p = paths[k].as_str();
        let hit: Option<i64> = if is_noise(p) {
            None
        } else {
            project_for_path(roots, p)
        };
        match hit {
            Some(id) => {
                let mut seen = false;
                let mut j: usize = 0;
                while j < out.len()
                    invariant
                        j <= out@.len(),
                        seen == (exists|q: int| 0 <= q < j && out@[q] == id),
                    decreases out@.len() - j,
                {
                    if out[j] == id {
                        seen = true;
                    }
                    j = j + 1;
                }
                if !seen {
                    out.push(id);
                    proof {
                        assert forall|a: int, b: int|
                            0 <= a < out@.len() && 0 <= b < out@.len() && a != b implies out@[a]
                            != out@[b] by {
                            if a < before.len() && b < before.len() {
                            } else if a < before.len() {
                                assert(before[a] == out@[a]);
                            } else if b < before.len() {
                                assert(before[b] == out@[b]);
                            }
                        }
                    }
                }
                proof {
                    if seen {
                        let q = choose|q: int| 0 <= q < j && out@[q] == id;
                        assert(out@[q] == id);
                    } else {
                        assert(out@[out@.len() - 1] == id);
                    }
                    assert(out@.contains(id));
                    assert(out@ == before || out@ == before.push(id));
                }
            },
            None => {},
        }
        proof {
            let pre = paths@.subrange(0, k as int);
            let post = paths@.subrange(0, k + 1);
            assert(post[k as int] == paths@[k as int]);
            assert forall|id: i64| out@.contains(id) <==> changed_by(roots@, post, id) by {
                if changed_by(roots@, post, id) {
                    let w = choose|w: int|
                        0 <= w < post.len() && !is_noise_spec(post[w]@) && project_for_path_spec(
                            roots@,
                            post[w]@,
                        ) == Some(id);
                    if w < k {
                        assert(pre[w] == post[w]);
                        assert(changed_by(roots@, pre, id));
                        assert(before.contains(id));
                        let q = choose|q: int| 0 <= q < before.len() && before[q] == id;
                        if out@ != before {
                            assert(out@[q] == id);
                        }
                    } else {
                        assert(hit == Some(id));
                    }
                }
                if out@.contains(id) {
                    if before.contains(id) {
                        let w = choose|w: int|
                            0 <= w < pre.len() && !is_noise_spec(pre[w]@) && project_for_path_spec(
                                roots@,
                                pre[w]@,
                            ) == Some(id);
                        assert(post[w] == pre[w]);
                    } else {
                        let q = choose|q: int| 0 <= q < out@.len() && out@[q] == id;
                        assert(hit == Some(id));
                        assert(!is_noise_spec(post[k as int]@));
                    }
                }
            }
        }
        k = k + 1;
    }
    proof {
        assert(paths@.subrange(0, n as int) =~= paths@);
    }
    out
}

/// A project that may be watched: its id, folder and repository folder.
#[derive(Debug)]
pub struct WatchProject {
    pub id: i64,
    pub path: Option<String>,
    pub repo_path: Option<String>,
}

/// The folder watched for a project: its repository folder when set and not empty,
/// else its folder.
pub open spec fn watch_root(p: WatchProject) -> Option<Seq<char>> {
    match p.repo_path {
        Some(r) => if r@.len() > 0 {
            Some(r@)
        } else {
            match p.path {
                Some(q) => Some(q@),
                None => None,
            }
        },
        None => match p.path {
            Some(q) => Some(q@),
            None => None,
        },
    }
}

/// The folders that may be watched (before checking that they exist), each with its
/// project: the watch root of every project that has one, with `~` resolved, in order.
pub open spec fn watch_candidates_spec(projects: Seq<WatchProject>, home: Option<Seq<char>>) -> Seq<(Seq<char>, i64)>
    decreases projects.len(),
{
    if projects.len() == 0 {
        seq![]
    } else {
        let prev = watch_candidates_spec(projects.drop_last(), home);
        match watch_root(projects.last()) {
            Some(r) => prev.push((expand_spec(r, home), projects.last().id)),
            None => prev,
        }
    }
}

/// The folders to watch, given the active projects; the caller keeps those that exist.
pub fn watch_candidates(projects: &Vec<WatchProject>, home: Option<&str>) -> (r: Vec<(String, i64)>)
    ensures
        r@.len() == watch_candidates_spec(projects@, opt_str_view(home)).len(),
        forall|i: int| 0 <= i < r@.len() ==> (#[trigger] r@[i]).0@ == watch_candidates_spec(projects@, opt_str_view(home))[i].0
            && r@[i].1 == watch_candidates_spec(projects@, opt_str_view(home))[i].1,
{
    let n = projects.len();
    let mut r: Vec<(String, i64)> = Vec::new();
    let mut i: usize = 0;
    while i < n
        invariant
            n == projects@.len(),
            i <= n,
            r@.len() == watch_candidates_spec(projects@.subrange(0, i as int), opt_str_view(home)).len(),
            forall|k: int| 0 <= k < r@.len() ==> (#[trigger] r@[k]).0@ == watch_candidates_spec(projects@.subrange(0, i as int), opt_str_view(home))[k].0
                && r@[k].1 == watch_candidates_spec(projects@.subrange(0, i as int), opt_str_view(home))[k].1,
        decreases n - i,
    {
        let p = &projects[i];
        proof {
            let post = projects@.subrange(0, i + 1);
            assert(post.drop_last() =~= projects@.subrange(0, i as int));
            assert(post.last() == projects@[i as int]);
        }
        let root: Option<&str> = match &p.repo_path {
            Some(rp) => if rp.unicode_len() > 0 {
                Some(rp.as_str())
            } else {
                match &p.path {
                    Some(q) => Some(q.as_str()),
                    None => None,
                }
            },
            None => match &p.path {
                Some(q) => Some(q.as_str()),
                None => None,
            },
        };
        match root {
            Some(rt) => {
                let e = expand(rt, home);
                r.push((e, p.id));
            },
            None => {},
        }
        i = i + 1;
    }
    proof {
        assert(projects@.subrange(0, n as int) =~= projects@);
    }
    r
}

} // verus!
