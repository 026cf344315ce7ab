use vstd::prelude::*;
use crate::actions::{ascii_lower, char_ascii_lower};
use crate::tasks::lemma_insert_members;
use crate::text::{lemma_lex_transitive, lemma_lex_trichotomy, lex_lt};

verus! {

/// `s` with ASCII letters in lower case: the form SQLite's `NOCASE` collation compares.
pub open spec fn nocase(s: Seq<char>) -> Seq<char> {
    Seq::new(s.len(), |i: int| ascii_lower(s[i]))
}

/// A sort key: a group, a position, then a name compared without ASCII case.
#[derive(Debug)]
pub struct SortKey {
    pub group: i64,
    pub position: i64,
    pub name: String,
}

/// Key order: by group, then position, then name (ignoring ASCII case).
pub open spec fn key_le(a: SortKey, b: SortKey) -> bool {
    ||| a.group < b.group
    ||| a.group == b.group && a.position < b.position
    ||| a.group == b.group && a.position == b.position && !lex_lt(nocase(b.name@), nocase(a.name@))
}

proof fn lemma_key_total(a: SortKey, b: SortKey)
    ensures
        key_le(a, b) || key_le(b, a),
{
    lemma_lex_trichotomy(nocase(a.name@), nocase(b.name@));
}

proof fn lemma_key_transitive(a: SortKey, b: SortKey, c: SortKey)
    requires
        key_le(a, b),
        key_le(b, c),
    ensures
        key_le(a, c),
{
    let (x, y, z) = (nocase(a.name@), nocase(b.name@), nocase(c.name@));
    lemma_lex_trichotomy(x, y);
    lemma_lex_trichotomy(y, z);
    lemma_lex_trichotomy(x, z);
    if a.group == b.group && b.group == c.group && a.position == b.position && b.position == c.position {
        if lex_lt(z, x) {
            if lex_lt(z, y) || z == y {
                if lex_lt(y, x) && lex_lt(z, y) {
                    lemma_lex_transitive(z, y, x);
                }
            } else {
                lemma_lex_transitive(y, z, x);
            }
        }
    }
}

/// Whether `a` sorts before `b` ignoring ASCII case.
fn str_lt_nocase(a: &str, b: &str) -> (r: bool)
    ensures
        r == lex_lt(nocase(a@), nocase(b@)),
{
    let na = a.unicode_len();
    let nb = b.unicode_len();
    let ghost fa = nocase(a@);
    let ghost fb = nocase(b@);
    proof {
        assert(fa.subrange(0, na as int) =~= fa);
        assert(fb.subrange(0, nb as int) =~= fb);
    }
    let mut i: usize = 0;
    while i < na && i < nb && char_ascii_lower(a.get_char(i)) == char_ascii_lower(b.get_char(i))
        invariant
            na == a@.len(),
            nb == b@.len(),
            fa == nocase(a@),
            fb == nocase(b@),
            i <= na,
            i <= nb,
            lex_lt(fa, fb) == lex_lt(fa.subrange(i as int, na as int), fb.subrange(i as int, nb as int)),
        decreases na - i,
    {
        proof {
            let x = fa.subrange(i as int, na as int);
            let y = fb.subrange(i as int, nb as int);
            assert(x.drop_first() =~= fa.subrange(i + 1, na as int));
            assert(y.drop_first() =~= fb.subrange(i + 1, nb as int));
        }
        i = i + 1;
    }
    proof {
        let x = fa.subrange(i as int, na as int);
        let y = fb.subrange(i as int, nb as int);
        if i < na && i < nb {
            assert(x[0] == fa[i as int]);
            assert(y[0] == fb[i as int]);
        }
    }
    if i == na {
        i < nb
    } else if i == nb {
        false
    } else {
        char_ascii_lower(a.get_char(i)) < char_ascii_lower(b.get_char(i))
    }
}

fn key_le_exec(a: &SortKey, b: &SortKey) -> (r: bool)
    ensures
        r == key_le(*a, *b),
{
    a.group < b.group || (a.group == b.group && a.position < b.position) || (a.group == b.group
        && a.position == b.position && !str_lt_nocase(b.name.as_str(), a.name.as_str()))
}

/// `o` is an ordering of all of `keys`: each index once, in key order.
pub open spec fn is_key_order(keys: Seq<SortKey>, o: Seq<usize>) -> bool {
    &&& o.len() == keys.len()
    &&& o.no_duplicates()
    &&& forall|p: int| 0 <= p < o.len() ==> #[trigger] o[p] < keys.len()
    &&& forall|p: int, q: int| 0 <= p < q < o.len() ==> key_le(keys[#[trigger] o[p] as int], keys[#[trigger] o[q] as int])
}

proof fn lemma_key_insert_keeps_order(keys: Seq<SortKey>, old_o: Seq<usize>, pos: int, i: usize)
    requires
        0 <= pos <= old_o.len(),
        i < keys.len(),
        forall|p: int| 0 <= p < old_o.len() ==> #[trigger] old_o[p] < keys.len(),
        forall|p: int, q: int| 0 <= p < q < old_o.len() ==> key_le(keys[#[trigger] old_o[p] as int], keys[#[trigger] old_o[q] as int]),
        forall|p: int| 0 <= p < pos ==> key_le(keys[#[trigger] old_o[p] as int], keys[i as int]),
        pos < old_o.len() ==> key_le(keys[i as int], keys[old_o[pos] as int]),
    ensures
        forall|p: int, q: int| 0 <= p < q < old_o.insert(pos, i).len() ==> key_le(keys[#[trigger] old_o.insert(pos, i)[p] as int], keys[#[trigger] old_o.insert(pos, i)[q] as int]),
{
    let o = old_o.insert(pos, i);
    assert forall|p: int, q: int| 0 <= p < q < o.len() implies key_le(keys[#[trigger] o[p] as int], keys[#[trigger] o[q] as int]) by {
        if q < pos {
            assert(o[p] == old_o[p] && o[q] == old_o[q]);
        } else if q == pos {
            assert(o[p] == old_o[p]);
        } else if p < pos {
            assert(o[p] == old_o[p] && o[q] == old_o[q - 1]);
        } else if p == pos {
            assert(o[q] == old_o[q - 1]);
            if q - 1 > pos {
                assert(key_le(keys[old_o[pos] as int], keys[old_o[q - 1] as int]));
                lemma_key_transitive(keys[i as int], keys[old_o[pos] as int], keys[old_o[q - 1] as int]);
            }
        } else {
            assert(o[p] == old_o[p - 1] && o[q] == old_o[q - 1]);
        }
    }
}

/// The indices of `keys` in key order (equal keys keep their order).
pub fn key_order(keys: &Vec<SortKey>) -> (o: Vec<usize>)
    ensures
        is_key_order(keys@, o@),
{
    let n = keys.len();
    let mut o: Vec<usize> = Vec::new();
    let mut i: usize = 0;
    while i < n
        invariant
            n == keys@.len(),
            i <= n,
            o@.len() == i,
            o@.no_duplicates(),
            forall|p: int| 0 <= p < o@.len() ==> #[trigger] o@[p] < i,
            forall|p: int, q: int| 0 <= p < q < o@.len() ==> key_le(keys@[#[trigger] o@[p] as int], keys@[#[trigger] o@[q] as int]),
        decreases n - i,
    {
        let mut pos: usize = 0;
        while pos < o.len() && key_le_exec(&keys[o[pos]], &keys[i])
            invariant
                n == keys@.len(),
                i < n,
                pos <= o@.len(),
                forall|p: int| 0 <= p < o@.len() ==> #[trigger] o@[p] < i,
                forall|p: int| 0 <= p < pos ==> key_le(keys@[#[trigger] o@[p] as int], keys@[i as int]),
            decreases o@.len() - pos,
        {
            pos = pos + 1;
        }
        let ghost old_o = o@;
        proof {
            if pos < old_o.len() {
                lemma_key_total(keys@[old_o[pos as int] as int], keys@[i as int]);
            }
            lemma_key_insert_keeps_order(keys@, old_o, pos as int, i);
            assert(!old_o.contains(i)) by {
                if old_o.contains(i) {
                    let w = choose|w: int| 0 <= w < old_o.len() && old_o[w] == i;
                    assert(old_o[w] < i);
                }
            }
            lemma_insert_members(old_o, pos as int, i);
        }
        o.insert(pos, i);
        proof {
            assert forall|p: int| 0 <= p < o@.len() implies #[trigger] o@[p] < i + 1 by {
                if p < pos {
                    assert(o@[p] == old_o[p]);
                } else if p > pos {
                    assert(o@[p] == old_o[p - 1]);
                }
            }
        }
        i = i + 1;
    }
    o
}

/// A project as the sidebar and the tray order it.
#[derive(Debug)]
pub struct ProjectSortRow {
    pub id: i64,
    pub name: String,
    pub pinned: bool,
    pub archived: bool,
    pub sort_order: i64,
}

/// The sidebar's key of a project: pinned ones first, then by position, then by name
/// (ignoring ASCII case).
pub open spec fn sidebar_key(r: ProjectSortRow) -> SortKey {
    SortKey { group: if r.pinned { 0 } else { 1 }, position: r.sort_order, name: r.name }
}

/// The sidebar keys of the projects, in order.
pub open spec fn sidebar_keys(rows: Seq<ProjectSortRow>) -> Seq<SortKey> {
    Seq::new(rows.len(), |i: int| sidebar_key(rows[i]))
}

/// The project ids in sidebar order: pinned first, then by position, then by name
/// (ignoring ASCII case).
pub fn sidebar_order(rows: &Vec<ProjectSortRow>) -> (r: Vec<i64>)
    ensures
        r@.len() == rows@.len(),
        exists|o: Seq<usize>| #[trigger] is_key_order(sidebar_keys(rows@), o)
            && forall|p: int| 0 <= p < o.len() ==> #[trigger] r@[p] == rows@[o[p] as int].id,
{
    let n = rows.len();
    let mut keys: Vec<SortKey> = Vec::new();
    let mut i: usize = 0;
    while i < n
        invariant
            n == rows@.len(),
            i <= n,
            keys@.len() == i,
            forall|k: int| 0 <= k < i ==> #[trigger] keys@[k] == sidebar_key(rows@[k]),
        decreases n - i,
    {
        let row = &rows[i];
        keys.push(SortKey { group: if row.pinned { 0 } else { 1 }, position: row.sort_order, name: row.name.clone() });
        i = i + 1;
    }
    proof {
        assert(keys@ =~= sidebar_keys(rows@));
    }
    let o = key_order(&keys);
    let mut r: Vec<i64> = Vec::new();
    let mut p: usize = 0;
    while p < n
        invariant
            n == rows@.len(),
            o@.len() == n,
            forall|x: int| 0 <= x < n ==> #[trigger] o@[x] < n,
            p <= n,
            r@.len() == p,
            forall|x: int| 0 <= x < p ==> #[trigger] r@[x] == rows@[o@[x] as int].id,
        decreases n - p,
    {
        r.push(rows[o[p]].id);
        p = p + 1;
    }
    r
}

/// The most pinned projects the tray menu shows.
pub const TRAY_LIMIT: usize = 8;

/// The tray lists pinned projects that are not archived.
pub open spec fn in_tray(r: ProjectSortRow) -> bool {
    r.pinned && !r.archived
}

/// The tray's key of a project: by position, then by name (ignoring ASCII case).
pub open spec fn tray_key(r: ProjectSortRow) -> SortKey {
    SortKey { group: 0, position: r.sort_order, name: r.name }
}

/// The tray keys of the kept projects, in order.
pub open spec fn tray_keys(rows: Seq<ProjectSortRow>, kept: Seq<int>) -> Seq<SortKey> {
    Seq::new(kept.len(), |p: int| tray_key(rows[kept[p]]))
}

/// The projects of the tray menu: pinned and not archived, by position then name
/// (ignoring ASCII case), at most eight, each with its name.
pub fn tray_projects(rows: &Vec<ProjectSortRow>) -> (r: Vec<(i64, String)>)
    ensures
        exists|kept: Seq<int>, o: Seq<usize>| {
            &&& forall|p: int, q: int| 0 <= p < q < kept.len() ==> #[trigger] kept[p] < #[trigger] kept[q]
            &&& forall|p: int| 0 <= p < kept.len() ==> 0 <= #[trigger] kept[p] < rows@.len()
            &&& forall|j: int| 0 <= j < rows@.len() ==> (in_tray(#[trigger] rows@[j]) <==> kept.contains(j))
            &&& #[trigger] is_key_order(tray_keys(rows@, kept), o)
            &&& r@.len() == if o.len() < TRAY_LIMIT { o.len() } else { TRAY_LIMIT as nat }
            &&& forall|p: int| 0 <= p < r@.len() ==> (#[trigger] r@[p]).0 == rows@[kept[o[p] as int]].id
                && r@[p].1@ == rows@[kept[o[p] as int]].name@
        },
{
    let n = rows.len();
    let mut keep: Vec<usize> = Vec::new();
    let mut keys: Vec<SortKey> = Vec::new();
    let mut j: usize = 0;
    while j < n
        invariant
            n == rows@.len(),
            j <= n,
            keep@.len() == keys@.len(),
            forall|p: int| 0 <= p < keep@.len() ==> #[trigger] keep@[p] < j,
            forall|p: int, q: int| 0 <= p < q < keep@.len() ==> #[trigger] keep@[p] < #[trigger] keep@[q],
            forall|x: int| 0 <= x < j ==> (in_tray(#[trigger] rows@[x]) <==> keep@.contains(x as usize)),
            forall|p: int| 0 <= p < keys@.len() ==> #[trigger] keys@[p] == tray_key(rows@[keep@[p] as int]),
        decreases n - j,
    {
        let row = &rows[j];
        if row.pinned && !row.archived {
            let ghost old_k = keep@;
            keep.push(j);
            keys.push(SortKey { group: 0, position: row.sort_order, name: row.name.clone() });
            proof {
                assert forall|x: int| 0 <= x < j + 1 implies (in_tray(#[trigger] rows@[x]) <==> keep@.contains(x as usize)) by {
                    if x < j {
                        if old_k.contains(x as usize) {
                            let w = choose|w: int| 0 <= w < old_k.len() && old_k[w] == x as usize;
                            assert(keep@[w] == x as usize);
                        }
                        if keep@.contains(x as usize) {
                            let w = choose|w: int| 0 <= w < keep@.len() && keep@[w] == x as usize;
                            if w < old_k.len() {
                                assert(old_k[w] == x as usize);
                            }
                        }
                    } else {
                        assert(keep@[keep@.len() - 1] == j);
                    }
                }
            }
        } else {
            proof {
                assert(!keep@.contains(j));
            }
        }
        j = j + 1;
    }
    let o = key_order(&keys);
    let m = if o.len() < TRAY_LIMIT { o.len() } else { TRAY_LIMIT };
    let mut r: Vec<(i64, String)> = Vec::new();
    let mut p: usize = 0;
    while p < m
        invariant
            n == rows@.len(),
            m <= o@.len(),
            o@.len() == keys@.len(),
            keep@.len() == keys@.len(),
            forall|x: int| 0 <= x < o@.len() ==> #[trigger] o@[x] < keys@.len(),
            forall|x: int| 0 <= x < keep@.len() ==> #[trigger] keep@[x] < n,
            p <= m,
            r@.len() == p,
            forall|x: int| 0 <= x < p ==> (#[trigger] r@[x]).0 == rows@[keep@[o@[x] as int] as int].id
                && r@[x].1@ == rows@[keep@[o@[x] as int] as int].name@,
        decreases m - p,
    {
        let row = &rows[keep[o[p]]];
        r.push((row.id, row.name.clone()));
        p = p + 1;
    }
    let ghost kept: Seq<int> = Seq::new(keep@.len(), |x: int| keep@[x] as int);
    proof {
        assert(keys@ =~= tray_keys(rows@, kept));
        assert forall|x: int| 0 <= x < rows@.len() implies (in_tray(#[trigger] rows@[x]) <==> kept.contains(x)) by {
            if keep@.contains(x as usize) {
                let w = choose|w: int| 0 <= w < keep@.len() && keep@[w] == x as usize;
                assert(kept[w] == x);
            }
            if kept.contains(x) {
                let w = choose|w: int| 0 <= w < kept.len() && kept[w] == x;
                assert(keep@[w] == x as usize);
            }
        }
        assert(is_key_order(tray_keys(rows@, kept), o@));
    }
    r
}

/// The keys of names alone.
pub open spec fn name_keys(names: Seq<String>) -> Seq<SortKey> {
    Seq::new(names.len(), |i: int| SortKey { group: 0, position: 0, name: names[i] })
}

/// Template names in list order: by name, ignoring ASCII case (equal names keep their
/// order).
pub fn name_order(names: &Vec<String>) -> (o: Vec<usize>)
    ensures
        is_key_order(name_keys(names@), o@),
{
    let n = names.len();
    let mut keys: Vec<SortKey> = Vec::new();
    let mut i: usize = 0;
    while i < n
        invariant
            n == names@.len(),
            i <= n,
            keys@.len() == i,
            forall|k: int| 0 <= k < i ==> #[trigger] keys@[k] == (SortKey { group: 0, position: 0, name: names@[k] }),
        decreases n - i,
    {
        keys.push(SortKey { group: 0, position: 0, name: names[i].clone() });
        i = i + 1;
    }
    proof {
        assert(keys@ =~= name_keys(names@));
    }
    key_order(&keys)
}

} // verus!
