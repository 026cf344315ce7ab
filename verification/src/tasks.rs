use vstd::prelude::*;
use crate::error::{AppError, AppResult, ErrorKind};
use crate::models::{AgendaItem, TaskInput};
use crate::text::{
    clone_opt_string, lemma_lex_transitive, lemma_lex_trichotomy, lex_lt, str_lt, trim, trim_str,
};

verus! {

/// A column of a project's task board, as the task rules read it.
#[derive(Debug)]
pub struct ColumnRow {
    pub id: i64,
    pub key: String,
    pub is_done: bool,
    pub sort_order: i64,
}

/// Board order: by position, then by id.
pub open spec fn column_le(a: ColumnRow, b: ColumnRow) -> bool {
    a.sort_order < b.sort_order || (a.sort_order == b.sort_order && a.id <= b.id)
}

/// Column `i` comes first on the board.
pub open spec fn is_first_column(cols: Seq<ColumnRow>, i: int) -> bool {
    0 <= i < cols.len() && forall|j: int| 0 <= j < cols.len() ==> column_le(cols[i], #[trigger] cols[j])
}

/// The key of a project's first column (the status a new task gets); `todo` for a
/// board without columns.
pub fn first_column_key(columns: &[ColumnRow]) -> (r: String)
    ensures
        columns@.len() == 0 ==> r@ == "todo"@,
        columns@.len() > 0 ==> exists|i: int| is_first_column(columns@, i) && r@ == columns@[i].key@,
{
    let n = columns.len();
    if n == 0 {
        return String::from_str("todo");
    }
    let mut best: usize = 0;
    let mut i: usize = 1;
    while i < n
        invariant
            n == columns@.len(),
            1 <= i <= n,
            best < i,
            forall|j: int| 0 <= j < i ==> column_le(columns@[best as int], #[trigger] columns@[j]),
        decreases n - i,
    {
        let c = &columns[i];
        let b = &columns[best];
        if c.sort_order < b.sort_order || (c.sort_order == b.sort_order && c.id < b.id) {
            best = i;
        }
        i = i + 1;
    }
    proof {
        assert(is_first_column(columns@, best as int));
    }
    columns[best].key.clone()
}

/// Whether the column with `key` is a "done" column (the first such column counts;
/// no such column is not done).
pub open spec fn done_of_key(cols: Seq<ColumnRow>, key: Seq<char>) -> bool
    decreases cols.len(),
{
    if cols.len() == 0 {
        false
    } else if cols[0].key@ == key {
        cols[0].is_done
    } else {
        done_of_key(cols.drop_first(), key)
    }
}

/// Whether tasks with status `key` count as done on this board.
pub fn is_done_column(columns: &[ColumnRow], key: &str) -> (b: bool)
    ensures
        b == done_of_key(columns@, key@),
{
    let n = columns.len();
    let mut i: usize = 0;
    proof {
        assert(columns@.subrange(0, n as int) =~= columns@);
    }
    while i < n
        invariant
            n == columns@.len(),
            i <= n,
            done_of_key(columns@, key@) == done_of_key(columns@.subrange(i as int, n as int), key@),
        decreases n - i,
    {
        proof {
            let t = columns@.subrange(i as int, n as int);
            assert(t[0] == columns@[i as int]);
            assert(t.drop_first() =~= columns@.subrange(i + 1, n as int));
        }
        if crate::text::str_equal(columns[i].key.as_str(), key) {
            return columns[i].is_done;
        }
        i = i + 1;
    }
    false
}

/// A task priority is 0, 1 or 2; none given is 0.
pub open spec fn clamp_priority_spec(p: Option<i64>) -> i64 {
    let v = match p {
        Some(x) => x,
        None => 0,
    };
    if v < 0 {
        0
    } else if v > 2 {
        2
    } else {
        v
    }
}

/// The stored priority of a task.
pub fn clamp_priority(p: Option<i64>) -> (r: i64)
    ensures
        r == clamp_priority_spec(p),
{
    let v = match p {
        Some(x) => x,
        None => 0,
    };
    if v < 0 {
        0
    } else if v > 2 {
        2
    } else {
        v
    }
}

/// The fields of a task as written, and whether its column is a done column.
#[derive(Debug)]
pub struct TaskFields {
    pub title: String,
    pub description: Option<String>,
    pub status: String,
    pub priority: i64,
    pub due_date: Option<String>,
    pub done: bool,
}

/// The fields of a new task. The title is required (stored trimmed); without a status
/// (or with an empty one) the task goes to the board's first column; the priority is
/// clamped to 0..=2.
pub fn plan_new_task(input: &TaskInput, columns: &[ColumnRow]) -> (r: AppResult<TaskFields>)
    ensures
        trim(input.title@).len() == 0 ==> (r matches Err(e) && e.kind == ErrorKind::Validation
            && e.message@ == "Заголовок задачи пуст"@),
        trim(input.title@).len() > 0 ==> (r matches Ok(f) && {
            &&& f.title@ == trim(input.title@)
            &&& f.description == input.description
            &&& f.due_date == input.due_date
            &&& f.priority == clamp_priority_spec(input.priority)
            &&& f.done == done_of_key(columns@, f.status@)
            &&& (input.status matches Some(s) && s@.len() > 0) ==> f.status@ == input.status.unwrap()@
            &&& !(input.status matches Some(s) && s@.len() > 0) ==> {
                &&& columns@.len() == 0 ==> f.status@ == "todo"@
                &&& columns@.len() > 0 ==> exists|i: int| is_first_column(columns@, i) && f.status@ == columns@[i].key@
            }
        }),
{
    let title = trim_str(input.title.as_str());
    if title.unicode_len() == 0 {
        return Err(AppError::new(ErrorKind::Validation, "Заголовок задачи пуст"));
    }
    let status = match &input.status {
        Some(s) => if s.unicode_len() > 0 {
            s.clone()
        } else {
            first_column_key(columns)
        },
        None => first_column_key(columns),
    };
    let done = is_done_column(columns, status.as_str());
    Ok(TaskFields {
        title: String::from_str(title),
        description: clone_opt_string(&input.description),
        status,
        priority: clamp_priority(input.priority),
        due_date: clone_opt_string(&input.due_date),
        done,
    })
}

/// The fields of an edited task. The title is required (stored trimmed); without a
/// status the task goes to `todo`; the priority is clamped to 0..=2.
pub fn plan_task_update(input: &TaskInput, columns: &[ColumnRow]) -> (r: AppResult<TaskFields>)
    ensures
        trim(input.title@).len() == 0 ==> (r matches Err(e) && e.kind == ErrorKind::Validation
            && e.message@ == "Заголовок задачи пуст"@),
        trim(input.title@).len() > 0 ==> (r matches Ok(f) && {
            &&& f.title@ == trim(input.title@)
            &&& f.description == input.description
            &&& f.due_date == input.due_date
            &&& f.priority == clamp_priority_spec(input.priority)
            &&& f.status@ == (match input.status {
                Some(s) => s@,
                None => "todo"@,
            })
            &&& f.done == done_of_key(columns@, f.status@)
        }),
{
    let title = trim_str(input.title.as_str());
    if title.unicode_len() == 0 {
        return Err(AppError::new(ErrorKind::Validation, "Заголовок задачи пуст"));
    }
    let status = match &input.status {
        Some(s) => s.clone(),
        None => String::from_str("todo"),
    };
    let done = is_done_column(columns, status.as_str());
    Ok(TaskFields {
        title: String::from_str(title),
        description: clone_opt_string(&input.description),
        status,
        priority: clamp_priority(input.priority),
        due_date: clone_opt_string(&input.due_date),
        done,
    })
}

/// The completion time a task keeps after it lands in a column: in a done column its
/// earlier completion time, else `now`; in any other column none.
pub open spec fn completion_spec(done: bool, existing: Option<Seq<char>>, now: Seq<char>) -> Option<Seq<char>> {
    if done {
        match existing {
            Some(t) => Some(t),
            None => Some(now),
        }
    } else {
        None
    }
}

/// The completion time of a task placed in a column (`done` tells whether that column
/// is a done column), given the time it had and the time now.
pub fn completion_time(done: bool, existing: Option<String>, now: &str) -> (r: Option<String>)
    ensures
        crate::creds::opt_string_view(r) == completion_spec(done, crate::creds::opt_string_view(existing), now@),
{
    if done {
        match existing {
            Some(t) => Some(t),
            None => Some(String::from_str(now)),
        }
    } else {
        None
    }
}

/// A task keeps its first completion time while it moves between done columns, and
/// loses it once it leaves them: completion is idempotent in time.
pub proof fn law_completion_time_kept(existing: Option<Seq<char>>, first: Seq<char>, later: Seq<char>)
    ensures
        completion_spec(true, completion_spec(true, existing, first), later) == completion_spec(true, existing, first),
        completion_spec(false, completion_spec(true, existing, first), later) is None,
        completion_spec(true, existing, first) is Some,
{
}

/// A task that may show on the agenda, with what the agenda rules read of its project
/// and column.
#[derive(Debug)]
pub struct AgendaRow {
    pub project_id: i64,
    pub project_name: String,
    pub project_color: Option<String>,
    pub project_archived: bool,
    pub task_id: i64,
    pub title: String,
    pub due_date: Option<String>,
    pub priority: i64,
    pub in_done_column: bool,
}

/// The most entries the agenda shows.
pub const AGENDA_LIMIT: usize = 50;

/// A task is on the agenda when it is not done, its project is not archived, and it has
/// a due date no later than `today` (dates compare as text, `YYYY-MM-DD`).
pub open spec fn agenda_eligible(r: AgendaRow, today: Seq<char>) -> bool {
    &&& !r.in_done_column
    &&& !r.project_archived
    &&& r.due_date is Some
    &&& r.due_date.unwrap()@.len() > 0
    &&& !lex_lt(today, r.due_date.unwrap()@)
}

/// The due date of an agenda row (empty when it has none).
pub open spec fn due_of(r: AgendaRow) -> Seq<char> {
    match r.due_date {
        Some(d) => d@,
        None => seq![],
    }
}

/// Agenda order: earlier due date first; on the same date, higher priority first.
pub open spec fn agenda_le(a: AgendaRow, b: AgendaRow) -> bool {
    lex_lt(due_of(a), due_of(b)) || (due_of(a) == due_of(b) && a.priority >= b.priority)
}

proof fn lemma_agenda_total(a: AgendaRow, b: AgendaRow)
    ensures
        agenda_le(a, b) || agenda_le(b, a),
{
    lemma_lex_trichotomy(due_of(a), due_of(b));
}

proof fn lemma_agenda_transitive(a: AgendaRow, b: AgendaRow, c: AgendaRow)
    requires
        agenda_le(a, b),
        agenda_le(b, c),
    ensures
        agenda_le(a, c),
{
    if lex_lt(due_of(a), due_of(b)) && lex_lt(due_of(b), due_of(c)) {
        lemma_lex_transitive(due_of(a), due_of(b), due_of(c));
    }
}

/// The item shown for an agenda row.
pub open spec fn agenda_item_of(r: AgendaRow) -> AgendaItem {
    AgendaItem {
        project_id: r.project_id,
        project_name: r.project_name,
        project_color: r.project_color,
        task_id: r.task_id,
        title: r.title,
        due_date: r.due_date,
        priority: r.priority,
    }
}

/// `o` lists exactly the agenda-eligible rows, each once, in agenda order.
pub open spec fn is_agenda_order(rows: Seq<AgendaRow>, today: Seq<char>, o: Seq<int>) -> bool {
    &&& o.no_duplicates()
    &&& forall|p: int| 0 <= p < o.len() ==> 0 <= #[trigger] o[p] < rows.len() && agenda_eligible(rows[o[p]], today)
    &&& forall|j: int| 0 <= j < rows.len() && agenda_eligible(#[trigger] rows[j], today) ==> o.contains(j)
    &&& forall|p: int, q: int| 0 <= p < q < o.len() ==> agenda_le(rows[#[trigger] o[p]], rows[#[trigger] o[q]])
}

/// `r` is the agenda of `rows` on `today`: the eligible rows in agenda order, at most
/// `AGENDA_LIMIT` of them.
pub open spec fn is_agenda(rows: Seq<AgendaRow>, today: Seq<char>, r: Seq<AgendaItem>, o: Seq<int>) -> bool {
    &&& is_agenda_order(rows, today, o)
    &&& r.len() == if o.len() < AGENDA_LIMIT { o.len() } else { AGENDA_LIMIT as nat }
    &&& forall|p: int| 0 <= p < r.len() ==> #[trigger] r[p] == agenda_item_of(rows[o[p]])
}

fn agenda_le_exec(a: &AgendaRow, b: &AgendaRow) -> (r: bool)
    ensures
        r == agenda_le(*a, *b),
{
    let da: &str = match &a.due_date {
        Some(d) => d.as_str(),
        None => "",
    };
    let db: &str = match &b.due_date {
        Some(d) => d.as_str(),
        None => "",
    };
    proof {
        reveal_strlit("");
        assert(da@ == due_of(*a));
        assert(db@ == due_of(*b));
    }
    str_lt(da, db) || (crate::text::str_equal(da, db) && a.priority >= b.priority)
}

fn is_eligible(r: &AgendaRow, today: &str) -> (b: bool)
    ensures
        b == agenda_eligible(*r, today@),
{
    if r.in_done_column || r.project_archived {
        return false;
    }
    match &r.due_date {
        Some(d) => d.unicode_len() > 0 && !str_lt(today, d.as_str()),
        None => false,
    }
}

/// `o` is in agenda order.
pub open spec fn agenda_sorted(rows: Seq<AgendaRow>, o: Seq<usize>) -> bool {
    forall|p: int, q: int| 0 <= p < q < o.len() ==> agenda_le(rows[#[trigger] o[p] as int], rows[#[trigger] o[q] as int])
}

proof fn lemma_insert_keeps_order(rows: Seq<AgendaRow>, old_o: Seq<usize>, pos: int, i: usize)
    requires
        0 <= pos <= old_o.len(),
        i < rows.len(),
        forall|p: int| 0 <= p < old_o.len() ==> #[trigger] old_o[p] < rows.len(),
        agenda_sorted(rows, old_o),
        forall|p: int| 0 <= p < pos ==> agenda_le(rows[#[trigger] old_o[p] as int], rows[i as int]),
        pos < old_o.len() ==> agenda_le(rows[i as int], rows[old_o[pos] as int]),
    ensures
        agenda_sorted(rows, old_o.insert(pos, i)),
{
    let o = old_o.insert(pos, i);
    assert forall|p: int, q: int| 0 <= p < q < o.len() implies agenda_le(rows[#[trigger] o[p] as int], rows[#[trigger] o[q] as int]) by {
        if q < pos {
            assert(o[p] == old_o[p] && o[q] == old_o[q]);
        } else if q == pos {
            assert(o[p] == old_o[p]);
        } else if p < pos {
            assert(o[p] == old_o[p] && o[q] == old_o[q - 1]);
        } else if p == pos {
            assert(o[q] == old_o[q - 1]);
            if q - 1 > pos {
                assert(agenda_le(rows[old_o[pos] as int], rows[old_o[q - 1] as int]));
                lemma_agenda_transitive(rows[i as int], rows[old_o[pos] as int], rows[old_o[q - 1] as int]);
            }
        } else {
            assert(o[p] == old_o[p - 1] && o[q] == old_o[q - 1]);
        }
    }
}

pub proof fn lemma_insert_members(old_o: Seq<usize>, pos: int, i: usize)
    requires
        0 <= pos <= old_o.len(),
        old_o.no_duplicates(),
        !old_o.contains(i),
    ensures
        old_o.insert(pos, i).no_duplicates(),
        forall|x: usize| #[trigger] old_o.insert(pos, i).contains(x) <==> (old_o.contains(x) || x == i),
{
    let o = old_o.insert(pos, i);
    assert forall|p: int, q: int| 0 <= p < o.len() && 0 <= q < o.len() && p != q implies o[p] != o[q] by {
        if p != pos && q != pos {
            let pp = if p < pos { p } else { p - 1 };
            let qq = if q < pos { q } else { q - 1 };
            assert(o[p] == old_o[pp] && o[q] == old_o[qq]);
        } else if p == pos {
            let qq = if q < pos { q } else { q - 1 };
            assert(o[q] == old_o[qq]);
        } else {
            let pp = if p < pos { p } else { p - 1 };
            assert(o[p] == old_o[pp]);
        }
    }
    assert forall|x: usize| #[trigger] o.contains(x) <==> (old_o.contains(x) || x == i) by {
        if o.contains(x) {
            let w = choose|w: int| 0 <= w < o.len() && o[w] == x;
            if w < pos {
                assert(old_o[w] == x);
            } else if w > pos {
                assert(old_o[w - 1] == x);
            }
        }
        if old_o.contains(x) {
            let w = choose|w: int| 0 <= w < old_o.len() && old_o[w] == x;
            if w < pos {
                assert(o[w] == x);
            } else {
                assert(o[w + 1] == x);
            }
        }
        if x == i {
            assert(o[pos] == i);
        }
    }
}

/// Put row `i` into `o` after every row that does not sort after it.
fn insert_in_agenda_order(rows: &Vec<AgendaRow>, o: &mut Vec<usize>, i: usize)
    requires
        i < rows@.len(),
        forall|p: int| 0 <= p < old(o)@.len() ==> #[trigger] old(o)@[p] < i,
        agenda_sorted(rows@, old(o)@),
    ensures
        exists|pos: int| 0 <= pos <= old(o)@.len() && final(o)@ == old(o)@.insert(pos, i),
        agenda_sorted(rows@, final(o)@),
{
    let mut pos: usize = 0;
    while pos < o.len() && agenda_le_exec(&rows[o[pos]], &rows[i])
        invariant
            i < rows@.len(),
            pos <= o@.len(),
            forall|p: int| 0 <= p < o@.len() ==> #[trigger] o@[p] < i,
            forall|p: int| 0 <= p < pos ==> agenda_le(rows@[#[trigger] o@[p] as int], rows@[i as int]),
        decreases o@.len() - pos,
    {
        pos = pos + 1;
    }
    let ghost old_o = o@;
    proof {
        if pos < old_o.len() {
            lemma_agenda_total(rows@[old_o[pos as int] as int], rows@[i as int]);
        }
        lemma_insert_keeps_order(rows@, old_o, pos as int, i);
    }
    o.insert(pos, i);
}

/// The agenda for `today`: tasks not done, of projects not archived, due on or before
/// today, earliest first (higher priority first on the same day), at most 50.
pub fn agenda(rows: &Vec<AgendaRow>, today: &str) -> (r: Vec<AgendaItem>)
    ensures
        exists|o: Seq<int>| #[trigger] is_agenda(rows@, today@, r@, o),
{
    let n = rows.len();
    // eligible rows, inserted in agenda order
    let mut o: Vec<usize> = Vec::new();
    let mut i: usize = 0;
    while i < n
        invariant
            n == rows@.len(),
            i <= n,
            o@.no_duplicates(),
            forall|p: int| 0 <= p < o@.len() ==> #[trigger] o@[p] < i && agenda_eligible(rows@[o@[p] as int], today@),
            forall|j: int| 0 <= j < i && agenda_eligible(#[trigger] rows@[j], today@) ==> o@.contains(j as usize),
            agenda_sorted(rows@, o@),
        decreases n - i,
    {
        if is_eligible(&rows[i], today) {
            let ghost old_o = o@;
            proof {
                assert(!old_o.contains(i)) by {
                    if old_o.contains(i) {
                        let w = choose|w: int| 0 <= w < old_o.len() && old_o[w] == i;
                        assert(old_o[w] < i);
                    }
                }
            }
            insert_in_agenda_order(rows, &mut o, i);
            proof {
                let pos = choose|pos: int| 0 <= pos <= old_o.len() && o@ == old_o.insert(pos, i);
                lemma_insert_members(old_o, pos, i);
                assert forall|p: int| 0 <= p < o@.len() implies #[trigger] o@[p] < i + 1 && agenda_eligible(rows@[o@[p] as int], today@) by {
                    if p < pos {
                        assert(o@[p] == old_o[p]);
                    } else if p > pos {
                        assert(o@[p] == old_o[p - 1]);
                    }
                }
                assert forall|j: int| 0 <= j < i + 1 && agenda_eligible(#[trigger] rows@[j], today@) implies o@.contains(j as usize) by {
                    if j < i {
                        assert(old_o.contains(j as usize));
                    }
                }
            }
        } else {
            proof {
                assert forall|j: int| 0 <= j < i + 1 && agenda_eligible(#[trigger] rows@[j], today@) implies o@.contains(j as usize) by {
                    if j == i {
                        assert(false);
                    }
                }
            }
        }
        i = i + 1;
    }
    let m = if o.len() < AGENDA_LIMIT { o.len() } else { AGENDA_LIMIT };
    let mut r: Vec<AgendaItem> = Vec::new();
    let mut p: usize = 0;
    while p < m
        invariant
            n == rows@.len(),
            m <= o@.len(),
            p <= m,
            r@.len() == p,
            forall|x: int| 0 <= x < o@.len() ==> #[trigger] o@[x] < n,
            forall|x: int| 0 <= x < p ==> #[trigger] r@[x] == agenda_item_of(rows@[o@[x] as int]),
        decreases m - p,
    {
        let row = &rows[o[p]];
        r.push(AgendaItem {
            project_id: row.project_id,
            project_name: row.project_name.clone(),
            project_color: clone_opt_string(&row.project_color),
            task_id: row.task_id,
            title: row.title.clone(),
            due_date: clone_opt_string(&row.due_date),
            priority: row.priority,
        });
        p = p + 1;
    }
    let ghost oi: Seq<int> = Seq::new(o@.len(), |x: int| o@[x] as int);
    proof {
        assert forall|x: int, y: int| 0 <= x < oi.len() && 0 <= y < oi.len() && x != y implies oi[x] != oi[y] by {
            assert(o@[x] != o@[y]);
        }
        assert forall|j: int| 0 <= j < rows@.len() && agenda_eligible(#[trigger] rows@[j], today@) implies oi.contains(j) by {
            assert(o@.contains(j as usize));
            let w = choose|w: int| 0 <= w < o@.len() && o@[w] == j as usize;
            assert(oi[w] == j);
        }
        assert forall|x: int, y: int| 0 <= x < y < oi.len() implies agenda_le(rows@[#[trigger] oi[x]], rows@[#[trigger] oi[y]]) by {
            assert(agenda_le(rows@[o@[x] as int], rows@[o@[y] as int]));
        }
        assert(is_agenda(rows@, today@, r@, oi));
    }
    r
}

} // verus!
