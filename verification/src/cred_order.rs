use vstd::prelude::*;
use crate::tasks::lemma_insert_members;

verus! {

/// A credential as the project's list reads it: whose it is, whether it is global, its
/// own position, and its position in this project's order (for a global one, if set).
#[derive(Debug)]
pub struct CredListRow {
    pub id: i64,
    pub project_id: i64,
    pub is_global: bool,
    pub sort_order: i64,
    pub project_position: Option<i64>,
}

/// Where a global credential without a position in this project goes: after the rest.
pub const UNPLACED: i64 = 1_000_000_000;

/// A project's list holds its own credentials and every global one.
pub open spec fn listed_in(r: CredListRow, project_id: i64) -> bool {
    r.project_id == project_id || r.is_global
}

/// The position a credential takes in a project's list.
pub open spec fn list_key(r: CredListRow) -> i64 {
    if r.is_global {
        match r.project_position {
            Some(p) => p,
            None => UNPLACED,
        }
    } else {
        r.sort_order
    }
}

/// List order: by position, then by id.
pub open spec fn list_le(a: CredListRow, b: CredListRow) -> bool {
    list_key(a) < list_key(b) || (list_key(a) == list_key(b) && a.id <= b.id)
}

/// `o` lists exactly the credentials of the project's list, each once, in list order.
pub open spec fn is_list_order(rows: Seq<CredListRow>, project_id: i64, o: Seq<usize>) -> bool {
    &&& o.no_duplicates()
    &&& forall|p: int| 0 <= p < o.len() ==> #[trigger] o[p] < rows.len() && listed_in(rows[o[p] as int], project_id)
    &&& forall|j: int| 0 <= j < rows.len() && listed_in(#[trigger] rows[j], project_id) ==> o.contains(j as usize)
    &&& forall|p: int, q: int| 0 <= p < q < o.len() ==> list_le(rows[#[trigger] o[p] as int], rows[#[trigger] o[q] as int])
}

fn list_key_exec(r: &CredListRow) -> (k: i64)
    ensures
        k == list_key(*r),
{
    if r.is_global {
        match r.project_position {
            Some(p) => p,
            None => UNPLACED,
        }
    } else {
        r.sort_order
    }
}

/// Whether `a` comes no later than a credential with position `key` and id `id`.
fn precedes(a: &CredListRow, key: i64, id: i64) -> (b: bool)
    ensures
        b == (list_key(*a) < key || (list_key(*a) == key && a.id <= id)),
{
    let ka = list_key_exec(a);
    ka < key || (ka == key && a.id <= id)
}

proof fn lemma_list_insert_keeps_order(rows: Seq<CredListRow>, old_o: Seq<usize>, pos: int, i: usize)
    requires
        0 <= pos <= old_o.len(),
        i < rows.len(),
        forall|p: int| 0 <= p < old_o.len() ==> #[trigger] old_o[p] < rows.len(),
        forall|p: int, q: int| 0 <= p < q < old_o.len() ==> list_le(rows[#[trigger] old_o[p] as int], rows[#[trigger] old_o[q] as int]),
        forall|p: int| 0 <= p < pos ==> list_le(rows[#[trigger] old_o[p] as int], rows[i as int]),
        pos < old_o.len() ==> list_le(rows[i as int], rows[old_o[pos] as int]),
    ensures
        forall|p: int, q: int| 0 <= p < q < old_o.insert(pos, i).len() ==> list_le(rows[#[trigger] old_o.insert(pos, i)[p] as int], rows[#[trigger] old_o.insert(pos, i)[q] as int]),
{
    let o = old_o.insert(pos, i);
    assert forall|p: int, q: int| 0 <= p < q < o.len() implies list_le(rows[#[trigger] o[p] as int], rows[#[trigger] o[q] as int]) by {
        if q < pos {
            assert(o[p] == old_o[p] && o[q] == old_o[q]);
        } else if q == pos {
            assert(o[p] == old_o[p]);
        } else if p < pos {
            assert(o[p] == old_o[p] && o[q] == old_o[q - 1]);
        } else if p == pos {
            assert(o[q] == old_o[q - 1]);
            if q - 1 > pos {
                assert(list_le(rows[old_o[pos] as int], rows[old_o[q - 1] as int]));
            }
        } else {
            assert(o[p] == old_o[p - 1] && o[q] == old_o[q - 1]);
        }
    }
}

/// The ids of a project's credentials in list order: its own by their position, the
/// global ones by their position in this project (those without one last), equal
/// positions by id.
pub fn list_cred_ids(rows: &Vec<CredListRow>, project_id: i64) -> (r: Vec<i64>)
    ensures
        exists|o: Seq<usize>| #[trigger] is_list_order(rows@, project_id, o) && r@.len() == o.len()
            && forall|p: int| 0 <= p < o.len() ==> #[trigger] r@[p] == rows@[o[p] as int].id,
{
    let n = rows.len();
    let mut o: Vec<usize> = Vec::new();
    let mut i: usize = 0;
    while i < n
        invariant
            n == rows@.len(),
            i <= n,
            o@.no_duplicates(),
            forall|p: int| 0 <= p < o@.len() ==> #[trigger] o@[p] < i && listed_in(rows@[o@[p] as int], project_id),
            forall|j: int| 0 <= j < i && listed_in(#[trigger] rows@[j], project_id) ==> o@.contains(j as usize),
            forall|p: int, q: int| 0 <= p < q < o@.len() ==> list_le(rows@[#[trigger] o@[p] as int], rows@[#[trigger] o@[q] as int]),
        decreases n - i,
    {
        let row = &rows[i];
        if row.project_id == project_id || row.is_global {
            let ki = list_key_exec(row);
            let mut pos: usize = 0;
            while pos < o.len() && precedes(&rows[o[pos]], ki, row.id)
                invariant
                    n == rows@.len(),
                    i < n,
                    ki == list_key(rows@[i as int]),
                    *row == rows@[i as int],
                    pos <= o@.len(),
                    forall|p: int| 0 <= p < o@.len() ==> #[trigger] o@[p] < i,
                    forall|p: int| 0 <= p < pos ==> list_le(rows@[#[trigger] o@[p] as int], rows@[i as int]),
                decreases o@.len() - pos,
            {
                pos = pos + 1;
            }
            let ghost old_o = o@;
            proof {
                assert(!old_o.contains(i)) by {
                    if old_o.contains(i) {
                        let w = choose|w: int| 0 <= w < old_o.len() && old_o[w] == i;
                        assert(old_o[w] < i);
                    }
                }
                lemma_list_insert_keeps_order(rows@, old_o, pos as int, i);
                lemma_insert_members(old_o, pos as int, i);
            }
            o.insert(pos, i);
            proof {
                assert forall|p: int| 0 <= p < o@.len() implies #[trigger] o@[p] < i + 1 && listed_in(rows@[o@[p] as int], project_id) by {
                    if p < pos {
                        assert(o@[p] == old_o[p]);
                    } else if p > pos {
                        assert(o@[p] == old_o[p - 1]);
                    }
                }
                assert forall|j: int| 0 <= j < i + 1 && listed_in(#[trigger] rows@[j], project_id) implies o@.contains(j as usize) by {
                    if j < i {
                        assert(old_o.contains(j as usize));
                    }
                }
            }
        } else {
            proof {
                assert forall|j: int| 0 <= j < i + 1 && listed_in(#[trigger] rows@[j], project_id) implies o@.contains(j as usize) by {
                    if j == i {
                        assert(false);
                    }
                }
            }
        }
        i = i + 1;
    }
    let mut r: Vec<i64> = Vec::new();
    let m = o.len();
    let mut p: usize = 0;
    while p < m
        invariant
            n == rows@.len(),
            m == o@.len(),
            p <= m,
            r@.len() == p,
            forall|x: int| 0 <= x < o@.len() ==> #[trigger] o@[x] < n,
            forall|x: int| 0 <= x < p ==> #[trigger] r@[x] == rows@[o@[x] as int].id,
        decreases m - p,
    {
        r.push(rows[o[p]].id);
        p = p + 1;
    }
    proof {
        assert(is_list_order(rows@, project_id, o@));
    }
    r
}

} // verus!
