use vstd::prelude::*;
use crate::error::{AppError, AppResult, ErrorKind};
use crate::tasks::{column_le, ColumnRow};
use crate::text::{concat2, i64_to_decimal, int_decimal};

verus! {

/// A column every new board starts with.
#[derive(Debug)]
pub struct ColumnSeed {
    pub key: String,
    pub name: String,
    pub is_done: bool,
    pub sort_order: i64,
}

/// The columns a project's board starts with: To Do, In Progress, Done (the last one
/// marks tasks done).
pub fn default_columns() -> (r: Vec<ColumnSeed>)
    ensures
        r@.len() == 3,
        r@[0].key@ == "todo"@ && r@[0].name@ == "To Do"@ && !r@[0].is_done && r@[0].sort_order == 0,
        r@[1].key@ == "doing"@ && r@[1].name@ == "In Progress"@ && !r@[1].is_done && r@[1].sort_order == 1,
        r@[2].key@ == "done"@ && r@[2].name@ == "Done"@ && r@[2].is_done && r@[2].sort_order == 2,
{
    let mut r: Vec<ColumnSeed> = Vec::new();
    r.push(ColumnSeed { key: String::from_str("todo"), name: String::from_str("To Do"), is_done: false, sort_order: 0 });
    r.push(ColumnSeed { key: String::from_str("doing"), name: String::from_str("In Progress"), is_done: false, sort_order: 1 });
    r.push(ColumnSeed { key: String::from_str("done"), name: String::from_str("Done"), is_done: true, sort_order: 2 });
    r
}

/// The key of a column created by the user: `c` and its id.
pub fn column_key(id: i64) -> (r: String)
    ensures
        r@ == seq!['c'] + int_decimal(id as int),
{
    let d = i64_to_decimal(id);
    proof {
        reveal_strlit("c");
        assert("c"@ =~= seq!['c']);
    }
    concat2("c", d.as_str())
}

/// The ids of a board's columns are distinct.
pub open spec fn distinct_ids(cols: Seq<ColumnRow>) -> bool {
    forall|i: int, j: int| 0 <= i < cols.len() && 0 <= j < cols.len() && i != j ==> cols[i].id != cols[j].id
}

/// Column `i` comes first on the board among those other than `id`.
pub open spec fn is_first_other(cols: Seq<ColumnRow>, id: i64, i: int) -> bool {
    &&& 0 <= i < cols.len()
    &&& cols[i].id != id
    &&& forall|j: int| 0 <= j < cols.len() && cols[j].id != id ==> column_le(cols[i], #[trigger] cols[j])
}

/// Where the tasks of a deleted column go.
#[derive(Debug)]
pub struct ColumnMove {
    pub from_key: String,
    pub to_key: String,
}

/// Deleting a column: refused when it is the board's last one; otherwise its tasks move
/// to the first remaining column (by position, then id).
pub fn column_delete_plan(columns: &[ColumnRow], id: i64) -> (r: AppResult<ColumnMove>)
    requires
        distinct_ids(columns@),
        exists|k: int| 0 <= k < columns@.len() && columns@[k].id == id,
    ensures
        columns@.len() <= 1 ==> (r matches Err(e) && e.kind == ErrorKind::Validation
            && e.message@ == "Нельзя удалить последнюю колонку"@),
        columns@.len() > 1 ==> (r matches Ok(m) && exists|k: int, t: int| {
            &&& 0 <= k < columns@.len() && columns@[k].id == id
            &&& m.from_key@ == columns@[k].key@
            &&& is_first_other(columns@, id, t)
            &&& m.to_key@ == columns@[t].key@
        }),
{
    let n = columns.len();
    if n <= 1 {
        return Err(AppError::new(ErrorKind::Validation, "Нельзя удалить последнюю колонку"));
    }
    let ghost k0 = choose|k: int| 0 <= k < columns@.len() && columns@[k].id == id;
    let mut from: usize = 0;
    let mut best: Option<usize> = None;
    let mut i: usize = 0;
    while i < n
        invariant
            n == columns@.len(),
            n > 1,
            i <= n,
            distinct_ids(columns@),
            0 <= k0 < n,
            columns@[k0].id == id,
            from < n,
            (k0 < i ==> from == k0),
            match best {
                Some(b) => b < i && columns@[b as int].id != id
                    && forall|j: int| 0 <= j < i && columns@[j].id != id ==> column_le(columns@[b as int], #[trigger] columns@[j]),
                None => forall|j: int| 0 <= j < i ==> #[trigger] columns@[j].id == id,
            },
        decreases n - i,
    {
        let c = &columns[i];
        if c.id == id {
            from = i;
        } else {
            match best {
                Some(b) => {
                    let bc = &columns[b];
                    if c.sort_order < bc.sort_order || (c.sort_order == bc.sort_order && c.id < bc.id) {
                        best = Some(i);
                    }
                },
                None => {
                    best = Some(i);
                },
            }
        }
        i = i + 1;
    }
    match best {
        Some(b) => {
            proof {
                assert(is_first_other(columns@, id, b as int));
            }
            Ok(ColumnMove { from_key: columns[from].key.clone(), to_key: columns[b].key.clone() })
        },
        None => {
            proof {
                let other: int = if k0 == 0 { 1 } else { 0 };
                assert(columns@[other].id == id);
                assert(false);
            }
            Err(AppError::new(ErrorKind::Validation, "Нельзя удалить последнюю колонку"))
        },
    }
}

} // verus!
