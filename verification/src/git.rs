use vstd::prelude::*;
use crate::error::{AppError, AppResult, ErrorKind};
use crate::models::{AttentionItem, GitChanges, GitFile, GitOpResult, GitStatus};
use crate::text::{concat2, reverse_vec, trim, trim_str};

verus! {

// Status bits of a working-tree entry, as libgit2 numbers them.
/// Added to the index.
pub const INDEX_NEW: u32 = 1;
/// Modified in the index.
pub const INDEX_MODIFIED: u32 = 2;
/// Deleted from the index.
pub const INDEX_DELETED: u32 = 4;
/// Renamed in the index.
pub const INDEX_RENAMED: u32 = 8;
/// Type changed in the index.
pub const INDEX_TYPECHANGE: u32 = 16;
/// Untracked in the working tree.
pub const WT_NEW: u32 = 128;
/// Modified in the working tree.
pub const WT_MODIFIED: u32 = 256;
/// Deleted in the working tree.
pub const WT_DELETED: u32 = 512;
/// Type changed in the working tree.
pub const WT_TYPECHANGE: u32 = 1024;
/// Renamed in the working tree.
pub const WT_RENAMED: u32 = 2048;
/// Ignored.
pub const IGNORED: u32 = 16384;
/// Any of the index bits.
pub const INDEX_ANY: u32 = 31;

/// The entry has one of the bits of `mask`.
pub open spec fn has_any(bits: u32, mask: u32) -> bool {
    bits & mask != 0
}

/// The entry counts as a change (it is not ignored).
pub open spec fn is_change(bits: u32) -> bool {
    !has_any(bits, IGNORED)
}

/// The entry has staged changes.
pub open spec fn is_staged(bits: u32) -> bool {
    has_any(bits, INDEX_ANY)
}

/// The entry is untracked.
pub open spec fn is_untracked(bits: u32) -> bool {
    has_any(bits, WT_NEW)
}

/// The number of changes among `s`.
pub open spec fn count_changes(s: Seq<u32>) -> nat
    decreases s.len(),
{
    if s.len() == 0 {
        0
    } else {
        count_changes(s.drop_last()) + if is_change(s.last()) { 1nat } else { 0nat }
    }
}

/// The number of staged changes among `s`.
pub open spec fn count_staged(s: Seq<u32>) -> nat
    decreases s.len(),
{
    if s.len() == 0 {
        0
    } else {
        count_staged(s.drop_last()) + if is_change(s.last()) && is_staged(s.last()) {
            1nat
        } else {
            0nat
        }
    }
}

/// The number of untracked changes among `s`.
pub open spec fn count_untracked(s: Seq<u32>) -> nat
    decreases s.len(),
{
    if s.len() == 0 {
        0
    } else {
        count_untracked(s.drop_last()) + if is_change(s.last()) && is_untracked(s.last()) {
            1nat
        } else {
            0nat
        }
    }
}

/// Counts of a working tree: changed, staged and untracked entries.
#[derive(Debug)]
pub struct TreeCounts {
    pub dirty: usize,
    pub staged: usize,
    pub untracked: usize,
}

/// Count the entries of a working tree: every entry that is not ignored is dirty; among
/// them those with index bits are staged and those new to the tree are untracked.
pub fn count_tree(statuses: &[u32]) -> (c: TreeCounts)
    ensures
        c.dirty == count_changes(statuses@),
        c.staged == count_staged(statuses@),
        c.untracked == count_untracked(statuses@),
        c.staged <= c.dirty,
        c.untracked <= c.dirty,
{
    let n = statuses.len();
    let mut dirty: usize = 0;
    let mut staged: usize = 0;
    let mut untracked: usize = 0;
    let mut k: usize = 0;
    while k < n
        invariant
            n == statuses@.len(),
            k <= n,
            dirty == count_changes(statuses@.subrange(0, k as int)),
            staged == count_staged(statuses@.subrange(0, k as int)),
            untracked == count_untracked(statuses@.subrange(0, k as int)),
            staged <= dirty <= k,
            untracked <= dirty,
        decreases n - k,
    {
        let s = statuses[k];
        proof {
            let pre = statuses@.subrange(0, k + 1);
            assert(pre.drop_last() =~= statuses@.subrange(0, k as int));
            assert(pre.last() == s);
        }
        if s & IGNORED == 0 {
            dirty = dirty + 1;
            if s & INDEX_ANY != 0 {
                staged = staged + 1;
            }
            if s & WT_NEW != 0 {
                untracked = untracked + 1;
            }
        }
        k = k + 1;
    }
    proof {
        assert(statuses@.subrange(0, n as int) =~= statuses@);
    }
    TreeCounts { dirty, staged, untracked }
}

/// The first seven characters of `s` (all of it when shorter).
pub open spec fn short_hash_spec(s: Seq<char>) -> Seq<char> {
    if s.len() <= 7 { s } else { s.subrange(0, 7) }
}

/// The abbreviated commit id shown in the UI: its first seven characters.
pub fn short_hash(full: &str) -> (r: String)
    ensures
        r@ == short_hash_spec(full@),
{
    let n = full.unicode_len();
    let end = if n <= 7 { n } else { 7 };
    proof {
        if n <= 7 {
            assert(full@.subrange(0, n as int) =~= full@);
        }
    }
    String::from_str(full.substring_char(0, end))
}

/// The last commit of `HEAD`: full id, summary line and time in unix seconds.
#[derive(Debug)]
pub struct HeadCommit {
    pub id: String,
    pub summary: Option<String>,
    pub seconds: i64,
}

/// Assemble the status of a repository from what was read from it: the branch name of
/// `HEAD`, its last commit, ahead/behind against the upstream (0/0 without one, and
/// without a branch) and the status bits of every working-tree entry.
pub fn git_status_of(
    branch: Option<String>,
    head: Option<HeadCommit>,
    ahead_behind: Option<(usize, usize)>,
    statuses: &[u32],
) -> (st: GitStatus)
    ensures
        st.branch == branch,
        branch is None ==> st.ahead == 0 && st.behind == 0,
        branch is Some ==> st.ahead == (match ahead_behind {
            Some(p) => p.0,
            None => 0,
        }),
        branch is Some ==> st.behind == (match ahead_behind {
            Some(p) => p.1,
            None => 0,
        }),
        st.dirty == count_changes(statuses@),
        st.staged == count_staged(statuses@),
        st.untracked == count_untracked(statuses@),
        st.last_hash.is_some() == head.is_some(),
        head matches Some(h) ==> st.last_hash.unwrap()@ == short_hash_spec(h.id@)
            && st.last_message == h.summary && st.last_timestamp == Some(h.seconds),
        head is None ==> st.last_message is None && st.last_timestamp is None,
{
    let c = count_tree(statuses);
    let (ahead, behind) = match (&branch, ahead_behind) {
        (Some(_), Some(p)) => p,
        _ => (0, 0),
    };
    let (last_hash, last_message, last_timestamp) = match head {
        Some(h) => (Some(short_hash(h.id.as_str())), h.summary, Some(h.seconds)),
        None => (None, None, None),
    };
    GitStatus {
        branch,
        ahead,
        behind,
        dirty: c.dirty,
        staged: c.staged,
        untracked: c.untracked,
        last_hash,
        last_message,
        last_timestamp,
    }
}

/// The one-letter code of a change: the working tree wins over the index — `?` untracked,
/// `D` deleted, `R` renamed, `T` type changed, `A` added to the index, `M` otherwise.
pub open spec fn code_spec(bits: u32) -> Seq<char> {
    if has_any(bits, WT_NEW) {
        seq!['?']
    } else if has_any(bits, WT_DELETED | INDEX_DELETED) {
        seq!['D']
    } else if has_any(bits, WT_RENAMED | INDEX_RENAMED) {
        seq!['R']
    } else if has_any(bits, WT_TYPECHANGE | INDEX_TYPECHANGE) {
        seq!['T']
    } else if has_any(bits, INDEX_NEW) {
        seq!['A']
    } else {
        seq!['M']
    }
}

/// The display group of a change: staged first, then modified, untracked, deleted.
pub open spec fn category(bits: u32) -> int {
    if is_staged(bits) {
        0
    } else if has_any(bits, WT_NEW) {
        2
    } else if has_any(bits, WT_DELETED | INDEX_DELETED) {
        3
    } else {
        1
    }
}

/// A changed file as the UI lists it: path, code and staged flag.
pub open spec fn file_view(f: GitFile) -> (Seq<char>, Seq<char>, bool) {
    (f.path@, f.code@, f.staged)
}

/// The listed form of an entry.
pub open spec fn entry_view(e: (String, u32)) -> (Seq<char>, Seq<char>, bool) {
    (e.0@, code_spec(e.1), is_staged(e.1))
}

/// The listed forms of the changes among `s` that fall in group `c`, in order.
pub open spec fn group_of(s: Seq<(String, u32)>, c: int) -> Seq<(Seq<char>, Seq<char>, bool)>
    decreases s.len(),
{
    if s.len() == 0 {
        seq![]
    } else {
        let rest = group_of(s.drop_last(), c);
        if is_change(s.last().1) && category(s.last().1) == c {
            rest.push(entry_view(s.last()))
        } else {
            rest
        }
    }
}

/// The listed changes: ignored entries dropped, then grouped (staged, modified,
/// untracked, deleted) with the order of the entries kept inside each group.
pub open spec fn changes_listing(s: Seq<(String, u32)>) -> Seq<(Seq<char>, Seq<char>, bool)> {
    group_of(s, 0) + group_of(s, 1) + group_of(s, 2) + group_of(s, 3)
}

/// The code of a change, by its status bits (WT_NEW = 128, WT_DELETED = 512,
/// INDEX_DELETED = 4, WT_RENAMED = 2048, INDEX_RENAMED = 8, WT_TYPECHANGE = 1024,
/// INDEX_TYPECHANGE = 16, INDEX_NEW = 1): an untracked file is `?`; otherwise a file
/// deleted in the tree or the index is `D`; otherwise renamed is `R`; otherwise a type
/// change is `T`; otherwise new in the index is `A`; anything else is `M`. The deleted
/// group lists only `D` files, the untracked group only `?` files.
pub proof fn law_change_codes(bits: u32)
    ensures
        bits & 128 != 0 ==> code_spec(bits) == seq!['?'],
        bits & 128 == 0 && (bits & 512 != 0 || bits & 4 != 0) ==> code_spec(bits) == seq!['D'],
        bits & 128 == 0 && bits & 512 == 0 && bits & 4 == 0 && (bits & 2048 != 0 || bits & 8 != 0)
            ==> code_spec(bits) == seq!['R'],
        bits & 128 == 0 && bits & 512 == 0 && bits & 4 == 0 && bits & 2048 == 0 && bits & 8 == 0
            && (bits & 1024 != 0 || bits & 16 != 0) ==> code_spec(bits) == seq!['T'],
        bits & 128 == 0 && bits & 512 == 0 && bits & 4 == 0 && bits & 2048 == 0 && bits & 8 == 0
            && bits & 1024 == 0 && bits & 16 == 0 && bits & 1 != 0 ==> code_spec(bits) == seq!['A'],
        bits & 128 == 0 && bits & 512 == 0 && bits & 4 == 0 && bits & 2048 == 0 && bits & 8 == 0
            && bits & 1024 == 0 && bits & 16 == 0 && bits & 1 == 0 ==> code_spec(bits) == seq!['M'],
        category(bits) == 3 ==> code_spec(bits) == seq!['D'],
        category(bits) == 2 ==> code_spec(bits) == seq!['?'],
{
    assert((bits & (512u32 | 4u32) != 0) == (bits & 512 != 0 || bits & 4 != 0)) by (bit_vector);
    assert((bits & (2048u32 | 8u32) != 0) == (bits & 2048 != 0 || bits & 8 != 0)) by (bit_vector);
    assert((bits & (1024u32 | 16u32) != 0) == (bits & 1024 != 0 || bits & 16 != 0)) by (bit_vector);
}

fn code_of(bits: u32) -> (r: &'static str)
    ensures
        r@ == code_spec(bits),
{
    proof {
        reveal_strlit("?");
        reveal_strlit("D");
        reveal_strlit("R");
        reveal_strlit("T");
        reveal_strlit("A");
        reveal_strlit("M");
    }
    if bits & WT_NEW != 0 {
        "?"
    } else if bits & (WT_DELETED | INDEX_DELETED) != 0 {
        "D"
    } else if bits & (WT_RENAMED | INDEX_RENAMED) != 0 {
        "R"
    } else if bits & (WT_TYPECHANGE | INDEX_TYPECHANGE) != 0 {
        "T"
    } else if bits & INDEX_NEW != 0 {
        "A"
    } else {
        "M"
    }
}

fn category_of(bits: u32) -> (r: u8)
    ensures
        r == category(bits),
{
    if bits & INDEX_ANY != 0 {
        0
    } else if bits & WT_NEW != 0 {
        2
    } else if bits & (WT_DELETED | INDEX_DELETED) != 0 {
        3
    } else {
        1
    }
}

/// Append the listed changes of group `c` to `out`.
fn push_group(entries: &[(String, u32)], c: u8, out: &mut Vec<GitFile>)
    ensures
        final(out)@.map_values(|f: GitFile| file_view(f)) == old(out)@.map_values(
            |f: GitFile| file_view(f),
        ) + group_of(entries@, c as int),
{
    let ghost start = old(out)@.map_values(|f: GitFile| file_view(f));
    let n = entries.len();
    let mut k: usize = 0;
    while k < n
        invariant
            n == entries@.len(),
            k <= n,
            out@.map_values(|f: GitFile| file_view(f)) == start + group_of(
                entries@.subrange(0, k as int),
                c as int,
            ),
        decreases n - k,
    {
        let ghost pre = entries@.subrange(0, k + 1);
        proof {
            assert(pre.drop_last() =~= entries@.subrange(0, k as int));
            assert(pre.last() == entries@[k as int]);
        }
        let bits = entries[k].1;
        if bits & IGNORED == 0 && category_of(bits) == c {
            let ghost before = out@.map_values(|f: GitFile| file_view(f));
            let f = GitFile {
                path: entries[k].0.clone(),
                code: String::from_str(code_of(bits)),
                staged: bits & INDEX_ANY != 0,
            };
            out.push(f);
            proof {
                assert(out@.map_values(|f: GitFile| file_view(f)) =~= before.push(
                    entry_view(entries@[k as int]),
                ));
            }
        }
        k = k + 1;
    }
    proof {
        assert(entries@.subrange(0, n as int) =~= entries@);
    }
}

/// List the uncommitted changes of a working tree from `(path, status bits)` entries:
/// ignored entries are dropped, each file gets its code and staged flag, and the list is
/// grouped staged → modified → untracked → deleted, keeping the entries' order in a group.
pub fn list_changes(entries: &[(String, u32)]) -> (files: Vec<GitFile>)
    ensures
        files@.map_values(|f: GitFile| file_view(f)) == changes_listing(entries@),
{
    let mut out: Vec<GitFile> = Vec::new();
    proof {
        assert(out@.map_values(|f: GitFile| file_view(f)) =~= seq![]);
    }
    push_group(entries, 0, &mut out);
    push_group(entries, 1, &mut out);
    push_group(entries, 2, &mut out);
    push_group(entries, 3, &mut out);
    proof {
        assert(seq![] + group_of(entries@, 0) =~= group_of(entries@, 0));
    }
    out
}

/// The change details of a working tree: the diffstat as read, and the listed files.
pub fn git_changes_of(insertions: usize, deletions: usize, entries: &[(String, u32)]) -> (ch: GitChanges)
    ensures
        ch.insertions == insertions,
        ch.deletions == deletions,
        ch.files@.map_values(|f: GitFile| file_view(f)) == changes_listing(entries@),
{
    GitChanges { insertions, deletions, files: list_changes(entries) }
}

/// The output of a git run: standard output, then (on a new line when both are present)
/// standard error when it is not blank, all trimmed.
pub open spec fn git_output_spec(out: Seq<char>, err: Seq<char>) -> Seq<char> {
    if trim(err).len() > 0 {
        if trim(out).len() > 0 {
            trim(out + "\n"@ + err)
        } else {
            trim(out + err)
        }
    } else {
        trim(out)
    }
}

/// Combine what a git run printed into the result shown to the user.
pub fn git_op_result(success: bool, stdout: &str, stderr: &str) -> (r: GitOpResult)
    ensures
        r.ok == success,
        r.output@ == git_output_spec(stdout@, stderr@),
{
    let text: String = if trim_str(stderr).unicode_len() > 0 {
        if trim_str(stdout).unicode_len() > 0 {
            let a = concat2(stdout, "\n");
            concat2(a.as_str(), stderr)
        } else {
            concat2(stdout, stderr)
        }
    } else {
        String::from_str(stdout)
    };
    proof {
        assert((stdout@ + "\n"@) + stderr@ == stdout@ + "\n"@ + stderr@);
    }
    GitOpResult { ok: success, output: String::from_str(trim_str(text.as_str())) }
}

/// A commit message must not be blank; it is used trimmed.
pub fn commit_message(message: &str) -> (r: AppResult<String>)
    ensures
        r matches Ok(m) ==> m@ == trim(message@) && trim(message@).len() > 0,
        r is Err <==> trim(message@).len() == 0,
        r matches Err(e) ==> e.kind == ErrorKind::Validation && e.message@
            == "Сообщение коммита пустое"@,
{
    let m = trim_str(message);
    if m.unicode_len() == 0 {
        return Err(AppError::new(ErrorKind::Validation, "Сообщение коммита пустое"));
    }
    Ok(String::from_str(m))
}

/// git runs only inside an existing project folder.
pub fn require_repo_dir(is_dir: bool) -> (r: AppResult<()>)
    ensures
        r is Ok <==> is_dir,
        r matches Err(e) ==> e.kind == ErrorKind::Validation && e.message@
            == "Папка проекта не найдена"@,
{
    if !is_dir {
        return Err(AppError::new(ErrorKind::Validation, "Папка проекта не найдена"));
    }
    Ok(())
}

/// A non-archived project with the git status read from its folder (None when the
/// folder is not a readable repository).
#[derive(Debug)]
pub struct ProjectRepo {
    pub project_id: i64,
    pub name: String,
    pub color: Option<String>,
    pub icon: Option<String>,
    pub status: Option<GitStatus>,
}

/// The project needs attention: its repository has uncommitted changes or commits to push.
pub open spec fn needs_attention(p: ProjectRepo) -> bool {
    p.status matches Some(st) && (st.dirty > 0 || st.ahead > 0)
}

/// The dashboard entry of a project that needs attention.
pub open spec fn attention_of(p: ProjectRepo) -> AttentionItem {
    let st = p.status.unwrap();
    AttentionItem {
        project_id: p.project_id,
        name: p.name,
        color: p.color,
        icon: p.icon,
        branch: st.branch,
        ahead: st.ahead,
        dirty: st.dirty,
        last_hash: st.last_hash,
        last_message: st.last_message,
    }
}

/// The entries for the projects of `s` that need attention, in order.
pub open spec fn attention_spec(s: Seq<ProjectRepo>) -> Seq<AttentionItem>
    decreases s.len(),
{
    if s.len() == 0 {
        seq![]
    } else {
        let rest = attention_spec(s.drop_last());
        if needs_attention(s.last()) {
            rest.push(attention_of(s.last()))
        } else {
            rest
        }
    }
}

/// The repository was read and has uncommitted changes or commits to push.
pub open spec fn has_work(p: ProjectRepo) -> bool {
    p.status is Some && (p.status.unwrap().dirty > 0 || p.status.unwrap().ahead > 0)
}

/// `item` is the dashboard entry of project `p`: same id, ahead and dirty counts.
pub open spec fn shows(item: AttentionItem, p: ProjectRepo) -> bool {
    &&& p.status is Some
    &&& item.project_id == p.project_id
    &&& item.ahead == p.status.unwrap().ahead
    &&& item.dirty == p.status.unwrap().dirty
}

/// Some entry of `r` is the dashboard entry of `p`.
pub open spec fn listed(r: Seq<AttentionItem>, p: ProjectRepo) -> bool {
    exists|j: int| 0 <= j < r.len() && #[trigger] shows(r[j], p)
}

/// `item` is the dashboard entry of some project of `s` that has work.
pub open spec fn from_work(s: Seq<ProjectRepo>, item: AttentionItem) -> bool {
    exists|i: int| 0 <= i < s.len() && has_work(s[i]) && #[trigger] shows(item, s[i])
}

proof fn lemma_attention_complete(s: Seq<ProjectRepo>)
    ensures
        forall|i: int| 0 <= i < s.len() && has_work(#[trigger] s[i]) ==> listed(attention_spec(s), s[i]),
    decreases s.len(),
{
    if s.len() > 0 {
        let t = s.drop_last();
        lemma_attention_complete(t);
        let r = attention_spec(s);
        let rt = attention_spec(t);
        let last = s.last();
        assert(r == if needs_attention(last) { rt.push(attention_of(last)) } else { rt });
        assert forall|i: int| 0 <= i < s.len() && has_work(#[trigger] s[i]) implies listed(r, s[i]) by {
            if i < s.len() - 1 {
                assert(t[i] == s[i]);
                assert(listed(rt, t[i]));
                let j = choose|j: int| 0 <= j < rt.len() && #[trigger] shows(rt[j], t[i]);
                assert(r[j] == rt[j]);
                assert(shows(r[j], s[i]));
            } else {
                assert(s[i] == last);
                assert(r[r.len() - 1] == attention_of(last));
                assert(shows(r[r.len() - 1], s[i]));
            }
        }
    }
}

proof fn lemma_attention_sound(s: Seq<ProjectRepo>)
    ensures
        forall|j: int| 0 <= j < attention_spec(s).len() ==> from_work(s, #[trigger] attention_spec(s)[j]),
    decreases s.len(),
{
    if s.len() > 0 {
        let t = s.drop_last();
        lemma_attention_sound(t);
        let r = attention_spec(s);
        let rt = attention_spec(t);
        let last = s.last();
        assert(r == if needs_attention(last) { rt.push(attention_of(last)) } else { rt });
        assert forall|j: int| 0 <= j < r.len() implies from_work(s, #[trigger] r[j]) by {
            if j < rt.len() {
                assert(r[j] == rt[j]);
                assert(from_work(t, rt[j]));
                let i = choose|i: int| 0 <= i < t.len() && has_work(t[i]) && #[trigger] shows(rt[j], t[i]);
                assert(s[i] == t[i]);
                assert(shows(r[j], s[i]));
            } else {
                let i = s.len() - 1;
                assert(s[i] == last);
                assert(r[j] == attention_of(last));
                assert(shows(r[j], s[i]));
            }
        }
    }
}

/// The dashboard lists a project exactly when its repository was read and has
/// uncommitted changes or commits to push: every such project has an entry with its id,
/// ahead and dirty counts, and every entry is that of such a project.
pub proof fn law_attention_lists_exactly(s: Seq<ProjectRepo>)
    ensures
        forall|i: int| 0 <= i < s.len() && has_work(#[trigger] s[i]) ==> listed(attention_spec(s), s[i]),
        forall|j: int| 0 <= j < attention_spec(s).len() ==> from_work(s, #[trigger] attention_spec(s)[j]),
{
    lemma_attention_complete(s);
    lemma_attention_sound(s);
}

/// The projects that need attention (uncommitted changes or ready to push), in the order
/// given.
pub fn dashboard_attention(projects: Vec<ProjectRepo>) -> (r: Vec<AttentionItem>)
    ensures
        r@ == attention_spec(projects@),
{
    let mut out: Vec<AttentionItem> = Vec::new();
    let ghost all = projects@;
    let n = projects.len();
    let mut k: usize = 0;
    // walk the projects front to back by popping them off the reversed list
    let mut projects = reverse_vec(projects);
    while k < n
        invariant
            n == all.len(),
            k <= n,
            projects@ == all.subrange(k as int, n as int).reverse(),
            out@ == attention_spec(all.subrange(0, k as int)),
        decreases n - k,
    {
        let p = projects.pop().unwrap();
        proof {
            assert(p == all[k as int]);
            let pre = all.subrange(0, k + 1);
            assert(pre.drop_last() =~= all.subrange(0, k as int));
            assert(projects@ =~= all.subrange(k + 1, n as int).reverse());
        }
        let keep = match &p.status {
            Some(st) => st.dirty > 0 || st.ahead > 0,
            None => false,
        };
        if keep {
            let st = p.status.unwrap();
            out.push(AttentionItem {
                project_id: p.project_id,
                name: p.name,
                color: p.color,
                icon: p.icon,
                branch: st.branch,
                ahead: st.ahead,
                dirty: st.dirty,
                last_hash: st.last_hash,
                last_message: st.last_message,
            });
        }
        k = k + 1;
    }
    proof {
        assert(all.subrange(0, n as int) =~= all);
    }
    out
}

} // verus!
