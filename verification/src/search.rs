use vstd::prelude::*;
use crate::models::SearchHit;
use crate::text::{concat3, trim, trim_str};

verus! {

/// The `LIKE` pattern for a search: the trimmed query between `%` signs; a blank
/// query searches nothing.
pub open spec fn search_pattern_spec(query: Seq<char>) -> Option<Seq<char>> {
    let q = trim(query);
    if q.len() == 0 {
        None
    } else {
        Some(seq!['%'] + q + seq!['%'])
    }
}

/// The pattern a search query matches with, or `None` for a blank query.
pub fn search_pattern(query: &str) -> (r: Option<String>)
    ensures
        crate::creds::opt_string_view(r) == search_pattern_spec(query@),
{
    let q = trim_str(query);
    if q.unicode_len() == 0 {
        return None;
    }
    proof {
        reveal_strlit("%");
        assert("%"@ =~= seq!['%']);
    }
    Some(concat3("%", q, "%"))
}

/// The most hits a search returns.
pub const SEARCH_LIMIT: usize = 50;

/// How many kinds of record a search looks through.
pub const SEARCH_SOURCES: usize = 7;

/// The kind of record of search source `i`, in the order searched: projects, tasks,
/// notes, links, credentials, commands, files.
pub open spec fn source_kind(i: int) -> Seq<char> {
    if i == 0 {
        "project"@
    } else if i == 1 {
        "task"@
    } else if i == 2 {
        "note"@
    } else if i == 3 {
        "link"@
    } else if i == 4 {
        "cred"@
    } else if i == 5 {
        "command"@
    } else {
        "file"@
    }
}

/// The caption shown under a hit of search source `i`.
pub open spec fn source_subtitle(i: int) -> Seq<char> {
    if i == 0 {
        "Проект"@
    } else if i == 1 {
        "Задача"@
    } else if i == 2 {
        "Заметка"@
    } else if i == 3 {
        "Ссылка"@
    } else if i == 4 {
        "Кред"@
    } else if i == 5 {
        "Команда"@
    } else {
        "Файл"@
    }
}

fn source_labels(i: usize) -> (r: (String, String))
    ensures
        r.0@ == source_kind(i as int),
        r.1@ == source_subtitle(i as int),
{
    if i == 0 {
        (String::from_str("project"), String::from_str("Проект"))
    } else if i == 1 {
        (String::from_str("task"), String::from_str("Задача"))
    } else if i == 2 {
        (String::from_str("note"), String::from_str("Заметка"))
    } else if i == 3 {
        (String::from_str("link"), String::from_str("Ссылка"))
    } else if i == 4 {
        (String::from_str("cred"), String::from_str("Кред"))
    } else if i == 5 {
        (String::from_str("command"), String::from_str("Команда"))
    } else {
        (String::from_str("file"), String::from_str("Файл"))
    }
}

/// A record that matched a search: its project, its id and its title.
#[derive(Debug)]
pub struct SearchRow {
    pub project_id: i64,
    pub project_name: String,
    pub id: i64,
    pub title: String,
}

/// The rows of all sources in order, each with the index of its source.
pub open spec fn flat_rows(groups: Seq<Vec<SearchRow>>) -> Seq<(int, SearchRow)>
    decreases groups.len(),
{
    if groups.len() == 0 {
        seq![]
    } else {
        let g = (groups.len() - 1) as int;
        flat_rows(groups.drop_last()) + groups.last()@.map(|k: int, row: SearchRow| (g, row))
    }
}

/// `h` is the hit shown for `row` of source `src`.
pub open spec fn is_hit_of(h: SearchHit, src: int, row: SearchRow) -> bool {
    &&& h.kind@ == source_kind(src)
    &&& h.subtitle@ == source_subtitle(src)
    &&& h.project_id == row.project_id
    &&& h.project_name@ == row.project_name@
    &&& h.id == row.id
    &&& h.title@ == row.title@
}

/// The hits of a search, given what each source matched (in source order): every row
/// becomes a hit tagged with its source, in order, and only the first 50 are kept.
pub fn search_results(groups: &Vec<Vec<SearchRow>>) -> (r: Vec<SearchHit>)
    requires
        groups@.len() == SEARCH_SOURCES,
    ensures
        r@.len() == if flat_rows(groups@).len() < SEARCH_LIMIT { flat_rows(groups@).len() } else { SEARCH_LIMIT as nat },
        forall|p: int| 0 <= p < r@.len() ==> is_hit_of(#[trigger] r@[p], flat_rows(groups@)[p].0, flat_rows(groups@)[p].1),
{
    let mut r: Vec<SearchHit> = Vec::new();
    let mut g: usize = 0;
    proof {
        assert(groups@.subrange(0, 0) =~= seq![]);
    }
    while g < SEARCH_SOURCES
        invariant
            groups@.len() == SEARCH_SOURCES,
            g <= SEARCH_SOURCES,
            r@.len() == if flat_rows(groups@.subrange(0, g as int)).len() < SEARCH_LIMIT {
                flat_rows(groups@.subrange(0, g as int)).len()
            } else {
                SEARCH_LIMIT as nat
            },
            forall|p: int| 0 <= p < r@.len() ==> is_hit_of(#[trigger] r@[p], flat_rows(groups@.subrange(0, g as int))[p].0,
                flat_rows(groups@.subrange(0, g as int))[p].1),
        decreases SEARCH_SOURCES - g,
    {
        let (kind, subtitle) = source_labels(g);
        let rows = &groups[g];
        let ghost pre = flat_rows(groups@.subrange(0, g as int));
        let ghost cur = flat_rows(groups@.subrange(0, g + 1));
        proof {
            let cur_groups = groups@.subrange(0, g + 1);
            assert(cur_groups.drop_last() =~= groups@.subrange(0, g as int));
            assert(cur == pre + groups@[g as int]@.map(|x: int, row: SearchRow| (g as int, row)));
        }
        let m = rows.len();
        let mut k: usize = 0;
        while k < m && r.len() < SEARCH_LIMIT
            invariant
                m == rows@.len(),
                rows == groups@[g as int],
                k <= m,
                kind@ == source_kind(g as int),
                subtitle@ == source_subtitle(g as int),
                cur == pre + rows@.map(|x: int, row: SearchRow| (g as int, row)),
                r@.len() <= SEARCH_LIMIT,
                r@.len() < SEARCH_LIMIT ==> r@.len() == pre.len() + k,
                r@.len() == SEARCH_LIMIT ==> pre.len() + k >= SEARCH_LIMIT,
                r@.len() >= pre.len() || r@.len() == SEARCH_LIMIT,
                forall|p: int| 0 <= p < r@.len() ==> is_hit_of(#[trigger] r@[p], cur[p].0, cur[p].1),
            decreases m - k,
        {
            let row = &rows[k];
            proof {
                assert(cur[pre.len() + k] == (g as int, rows@[k as int]));
            }
            r.push(SearchHit {
                kind: kind.clone(),
                project_id: row.project_id,
                project_name: row.project_name.clone(),
                id: row.id,
                title: row.title.clone(),
                subtitle: subtitle.clone(),
            });
            k = k + 1;
        }
        proof {
            assert(cur.len() == pre.len() + m);
        }
        g = g + 1;
    }
    proof {
        assert(groups@.subrange(0, SEARCH_SOURCES as int) =~= groups@);
    }
    r
}

/// Each search source tags its hits with its own kind and caption: projects "project"
/// ("Проект"), tasks "task" ("Задача"), notes "note" ("Заметка"), links "link"
/// ("Ссылка"), credentials "cred" ("Кред"), commands "command" ("Команда") and files
/// "file" ("Файл"); no two sources share a kind, so a hit's kind tells which record
/// to open.
pub proof fn law_search_kinds(h: SearchHit, src: int, row: SearchRow)
    requires
        0 <= src < SEARCH_SOURCES,
        is_hit_of(h, src, row),
    ensures
        src == 0 ==> h.kind@ == "project"@ && h.subtitle@ == "Проект"@,
        src == 1 ==> h.kind@ == "task"@ && h.subtitle@ == "Задача"@,
        src == 2 ==> h.kind@ == "note"@ && h.subtitle@ == "Заметка"@,
        src == 3 ==> h.kind@ == "link"@ && h.subtitle@ == "Ссылка"@,
        src == 4 ==> h.kind@ == "cred"@ && h.subtitle@ == "Кред"@,
        src == 5 ==> h.kind@ == "command"@ && h.subtitle@ == "Команда"@,
        src == 6 ==> h.kind@ == "file"@ && h.subtitle@ == "Файл"@,
        forall|j: int| 0 <= j < SEARCH_SOURCES && j != src ==> h.kind@ != source_kind(j),
{
    reveal_strlit("project");
    reveal_strlit("task");
    reveal_strlit("note");
    reveal_strlit("link");
    reveal_strlit("cred");
    reveal_strlit("command");
    reveal_strlit("file");
    assert forall|j: int| 0 <= j < SEARCH_SOURCES && j != src implies h.kind@ != source_kind(j) by {
        if h.kind@ == source_kind(j) {
            assert(h.kind@[0] == source_kind(j)[0]);
            assert(h.kind@.len() == source_kind(j).len());
            if h.kind@.len() > 1 {
                assert(h.kind@[1] == source_kind(j)[1]);
            }
        }
    }
}

/// The title a note shows in search: its title, or "Заметка" when it has none.
pub fn note_title(title: Option<String>) -> (r: String)
    ensures
        r@ == (match title {
            Some(t) => if t@.len() > 0 { t@ } else { "Заметка"@ },
            None => "Заметка"@,
        }),
{
    match title {
        Some(t) => if t.unicode_len() > 0 { t } else { String::from_str("Заметка") },
        None => String::from_str("Заметка"),
    }
}

} // verus!
