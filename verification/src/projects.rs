use vstd::prelude::*;
use crate::error::{AppError, AppResult, ErrorKind};
use crate::models::ProjectInput;
use crate::text::{clone_opt_string, concat3, decimal, str_equal, trim, trim_str, u64_to_decimal};

verus! {

/// The views of a list of strings.
pub open spec fn strings_view(v: Seq<String>) -> Seq<Seq<char>> {
    Seq::new(v.len(), |i: int| v[i]@)
}

/// The tags a project keeps of the ones given: trimmed, blanks dropped, each name
/// once, in the order first given.
pub open spec fn tag_list(tags: Seq<Seq<char>>) -> Seq<Seq<char>>
    decreases tags.len(),
{
    if tags.len() == 0 {
        seq![]
    } else {
        let prev = tag_list(tags.drop_last());
        let t = trim(tags.last());
        if t.len() == 0 || prev.contains(t) {
            prev
        } else {
            prev.push(t)
        }
    }
}

/// The tags to store for a project: trimmed, blanks dropped, duplicates dropped.
pub fn clean_tags(tags: &Vec<String>) -> (r: Vec<String>)
    ensures
        strings_view(r@) == tag_list(strings_view(tags@)),
{
    let n = tags.len();
    let mut out: Vec<String> = Vec::new();
    let mut i: usize = 0;
    while i < n
        invariant
            n == tags@.len(),
            i <= n,
            strings_view(out@) == tag_list(strings_view(tags@).subrange(0, i as int)),
        decreases n - i,
    {
        let t = trim_str(tags[i].as_str());
        let mut seen = false;
        let mut k: usize = 0;
        while k < out.len()
            invariant
                k <= out@.len(),
                seen <==> exists|j: int| 0 <= j < k && out@[j]@ == t@,
            decreases out@.len() - k,
        {
            if str_equal(out[k].as_str(), t) {
                seen = true;
            }
            k = k + 1;
        }
        proof {
            let sv = strings_view(tags@).subrange(0, i + 1);
            assert(sv.drop_last() =~= strings_view(tags@).subrange(0, i as int));
            assert(sv.last() == tags@[i as int]@);
            let prev = strings_view(out@);
            if seen {
                let j = choose|j: int| 0 <= j < out@.len() && out@[j]@ == t@;
                assert(prev[j] == t@);
            } else {
                assert(!prev.contains(t@)) by {
                    if prev.contains(t@) {
                        let j = choose|j: int| 0 <= j < prev.len() && prev[j] == t@;
                        assert(out@[j]@ == t@);
                    }
                }
            }
        }
        if t.unicode_len() > 0 && !seen {
            out.push(String::from_str(t));
            proof {
                assert(strings_view(out@) =~= tag_list(strings_view(tags@).subrange(0, i as int)).push(t@));
            }
        }
        i = i + 1;
    }
    proof {
        assert(strings_view(tags@).subrange(0, n as int) =~= strings_view(tags@));
    }
    out
}

/// A project's stored tags are distinct, none is empty, and each is a given tag trimmed.
pub proof fn law_tags_distinct(tags: Seq<Seq<char>>)
    ensures
        tag_list(tags).no_duplicates(),
        forall|i: int| 0 <= i < tag_list(tags).len() ==> #[trigger] tag_list(tags)[i].len() > 0,
        forall|i: int| 0 <= i < tag_list(tags).len() ==> exists|j: int| 0 <= j < tags.len() && #[trigger] tag_list(tags)[i] == trim(tags[j]),
    decreases tags.len(),
{
    if tags.len() > 0 {
        let prev = tag_list(tags.drop_last());
        law_tags_distinct(tags.drop_last());
        let t = trim(tags.last());
        assert forall|i: int| 0 <= i < prev.len() implies exists|j: int| 0 <= j < tags.len() && #[trigger] prev[i] == trim(tags[j]) by {
            let j = choose|j: int| 0 <= j < tags.drop_last().len() && prev[i] == trim(tags.drop_last()[j]);
            assert(tags.drop_last()[j] == tags[j]);
        }
        if !(t.len() == 0 || prev.contains(t)) {
            let cur = prev.push(t);
            assert(cur[cur.len() - 1] == trim(tags[tags.len() - 1]));
            assert forall|a: int, b: int| 0 <= a < cur.len() && 0 <= b < cur.len() && a != b implies cur[a] != cur[b] by {
                if a == cur.len() - 1 {
                    assert(cur[b] == prev[b]);
                } else if b == cur.len() - 1 {
                    assert(cur[a] == prev[a]);
                } else {
                    assert(cur[a] == prev[a] && cur[b] == prev[b]);
                }
            }
            assert forall|i: int| 0 <= i < cur.len() implies exists|j: int| 0 <= j < tags.len() && #[trigger] cur[i] == trim(tags[j]) by {
                if i == cur.len() - 1 {
                    assert(cur[i] == trim(tags[tags.len() - 1]));
                } else {
                    assert(cur[i] == prev[i]);
                }
            }
        }
    }
}

/// The fields of a project as written.
#[derive(Debug)]
pub struct ProjectFields {
    pub name: String,
    pub description: Option<String>,
    pub status: String,
    pub color: Option<String>,
    pub icon: Option<String>,
    pub path: Option<String>,
    pub repo_path: Option<String>,
    pub health_url: Option<String>,
    pub tags: Vec<String>,
}

/// A project needs a name (stored trimmed); its status defaults to `active`; its tags
/// are cleaned as `clean_tags` says.
pub fn project_fields(input: &ProjectInput) -> (r: AppResult<ProjectFields>)
    ensures
        trim(input.name@).len() == 0 ==> (r matches Err(e) && e.kind == ErrorKind::Validation
            && e.message@ == "Имя проекта не может быть пустым"@),
        trim(input.name@).len() > 0 ==> (r matches Ok(f) && {
            &&& f.name@ == trim(input.name@)
            &&& f.status@ == (match input.status {
                Some(s) => s@,
                None => "active"@,
            })
            &&& f.description == input.description
            &&& f.color == input.color
            &&& f.icon == input.icon
            &&& f.path == input.path
            &&& f.repo_path == input.repo_path
            &&& f.health_url == input.health_url
            &&& strings_view(f.tags@) == tag_list(strings_view(input.tags@))
        }),
{
    let name = trim_str(input.name.as_str());
    if name.unicode_len() == 0 {
        return Err(AppError::new(ErrorKind::Validation, "Имя проекта не может быть пустым"));
    }
    let status = match &input.status {
        Some(s) => s.clone(),
        None => String::from_str("active"),
    };
    Ok(ProjectFields {
        name: String::from_str(name),
        description: clone_opt_string(&input.description),
        status,
        color: clone_opt_string(&input.color),
        icon: clone_opt_string(&input.icon),
        path: clone_opt_string(&input.path),
        repo_path: clone_opt_string(&input.repo_path),
        health_url: clone_opt_string(&input.health_url),
        tags: clean_tags(&input.tags),
    })
}

/// The project that inherits the global credentials of a deleted one: the smallest
/// other id; none when no other project exists.
pub open spec fn is_heir(ids: Seq<i64>, deleted: i64, h: i64) -> bool {
    &&& h != deleted
    &&& ids.contains(h)
    &&& forall|i: int| 0 <= i < ids.len() && ids[i] != deleted ==> h <= #[trigger] ids[i]
}

/// Which project takes over the global credentials of project `deleted`.
pub fn credential_heir(project_ids: &[i64], deleted: i64) -> (r: Option<i64>)
    ensures
        r is None <==> forall|i: int| 0 <= i < project_ids@.len() ==> #[trigger] project_ids@[i] == deleted,
        r matches Some(h) ==> is_heir(project_ids@, deleted, h),
{
    let n = project_ids.len();
    let mut best: Option<i64> = None;
    let mut i: usize = 0;
    while i < n
        invariant
            n == project_ids@.len(),
            i <= n,
            match best {
                Some(h) => h != deleted && project_ids@.subrange(0, i as int).contains(h)
                    && forall|j: int| 0 <= j < i && project_ids@[j] != deleted ==> h <= #[trigger] project_ids@[j],
                None => forall|j: int| 0 <= j < i ==> #[trigger] project_ids@[j] == deleted,
            },
        decreases n - i,
    {
        let x = project_ids[i];
        let ghost before = best;
        if x != deleted {
            match best {
                Some(h) => {
                    if x < h {
                        best = Some(x);
                    }
                },
                None => {
                    best = Some(x);
                },
            }
        }
        proof {
            let pre = project_ids@.subrange(0, i as int);
            let post = project_ids@.subrange(0, i + 1);
            assert(post[i as int] == x);
            if let Some(h) = before {
                let w = choose|w: int| 0 <= w < pre.len() && pre[w] == h;
                assert(post[w] == h);
            }
        }
        i = i + 1;
    }
    proof {
        assert(project_ids@.subrange(0, n as int) =~= project_ids@);
    }
    best
}

/// What `str::to_lowercase` returns for `s` (full Unicode lower case).
pub uninterp spec fn unicode_lowercase(s: Seq<char>) -> Seq<char>;

/// `str::to_lowercase`; the contract names its result.
#[verifier::external_body]
fn to_lowercase(s: &str) -> (r: String)
    ensures
        r@ == unicode_lowercase(s@),
{
    s.to_lowercase()
}

/// The file name of an imported project icon: `icon-<milliseconds>.<extension>`, the
/// extension of the source in lower case, `png` when it has none.
pub fn icon_file_name(extension: Option<&str>, stamp_ms: u64) -> (r: String)
    ensures
        r@ == seq!['i', 'c', 'o', 'n', '-'] + decimal(stamp_ms as nat) + seq!['.'] + (match extension {
            Some(e) => unicode_lowercase(e@),
            None => seq!['p', 'n', 'g'],
        }),
{
    let ext = match extension {
        Some(e) => to_lowercase(e),
        None => String::from_str("png"),
    };
    let stamp = u64_to_decimal(stamp_ms);
    proof {
        reveal_strlit("icon-");
        reveal_strlit(".");
        reveal_strlit("png");
        assert("icon-"@ =~= seq!['i', 'c', 'o', 'n', '-']);
        assert("."@ =~= seq!['.']);
        assert("png"@ =~= seq!['p', 'n', 'g']);
    }
    let head = concat3("icon-", stamp.as_str(), ".");
    crate::text::concat2(head.as_str(), ext.as_str())
}

} // verus!
