use vstd::prelude::*;
use crate::error::{AppError, AppResult, ErrorKind};
use crate::text::{trim, trim_str};

verus! {

/// A required text field: stored trimmed; blank is refused with `message`.
pub fn required_text(raw: &str, message: &str) -> (r: AppResult<String>)
    ensures
        trim(raw@).len() == 0 ==> (r matches Err(e) && e.kind == ErrorKind::Validation && e.message@ == message@),
        trim(raw@).len() > 0 ==> (r matches Ok(s) && s@ == trim(raw@)),
{
    let t = trim_str(raw);
    if t.unicode_len() == 0 {
        return Err(AppError::new(ErrorKind::Validation, message));
    }
    Ok(String::from_str(t))
}

/// Two required text fields (a label and a URL or path): both stored trimmed; if either
/// is blank the pair is refused with `message`.
pub fn required_pair(first: &str, second: &str, message: &str) -> (r: AppResult<(String, String)>)
    ensures
        (trim(first@).len() == 0 || trim(second@).len() == 0) ==> (r matches Err(e)
            && e.kind == ErrorKind::Validation && e.message@ == message@),
        (trim(first@).len() > 0 && trim(second@).len() > 0) ==> (r matches Ok(p)
            && p.0@ == trim(first@) && p.1@ == trim(second@)),
{
    let a = trim_str(first);
    let b = trim_str(second);
    if a.unicode_len() == 0 || b.unicode_len() == 0 {
        return Err(AppError::new(ErrorKind::Validation, message));
    }
    Ok((String::from_str(a), String::from_str(b)))
}

/// The name of a project folder: trimmed, and not blank.
pub fn clean_name(raw: &str) -> (r: AppResult<String>)
    ensures
        trim(raw@).len() == 0 ==> (r matches Err(e) && e.kind == ErrorKind::Validation
            && e.message@ == "Имя папки не может быть пустым"@),
        trim(raw@).len() > 0 ==> (r matches Ok(s) && s@ == trim(raw@)),
{
    required_text(raw, "Имя папки не может быть пустым")
}

/// A link needs a label and a URL (both stored trimmed).
pub fn link_fields(label: &str, url: &str) -> (r: AppResult<(String, String)>)
    ensures
        (trim(label@).len() == 0 || trim(url@).len() == 0) ==> (r matches Err(e)
            && e.kind == ErrorKind::Validation && e.message@ == "Название и URL обязательны"@),
        (trim(label@).len() > 0 && trim(url@).len() > 0) ==> (r matches Ok(p)
            && p.0@ == trim(label@) && p.1@ == trim(url@)),
{
    required_pair(label, url, "Название и URL обязательны")
}

/// A file shortcut needs a label and a path (both stored trimmed).
pub fn file_fields(label: &str, path: &str) -> (r: AppResult<(String, String)>)
    ensures
        (trim(label@).len() == 0 || trim(path@).len() == 0) ==> (r matches Err(e)
            && e.kind == ErrorKind::Validation && e.message@ == "Название и путь обязательны"@),
        (trim(label@).len() > 0 && trim(path@).len() > 0) ==> (r matches Ok(p)
            && p.0@ == trim(label@) && p.1@ == trim(path@)),
{
    required_pair(label, path, "Название и путь обязательны")
}

/// A task label needs a name (stored trimmed).
pub fn label_name(raw: &str) -> (r: AppResult<String>)
    ensures
        trim(raw@).len() == 0 ==> (r matches Err(e) && e.kind == ErrorKind::Validation
            && e.message@ == "Название метки пусто"@),
        trim(raw@).len() > 0 ==> (r matches Ok(s) && s@ == trim(raw@)),
{
    required_text(raw, "Название метки пусто")
}

/// A board column needs a name (stored trimmed).
pub fn column_name(raw: &str) -> (r: AppResult<String>)
    ensures
        trim(raw@).len() == 0 ==> (r matches Err(e) && e.kind == ErrorKind::Validation
            && e.message@ == "Название колонки пусто"@),
        trim(raw@).len() > 0 ==> (r matches Ok(s) && s@ == trim(raw@)),
{
    required_text(raw, "Название колонки пусто")
}

/// Each id once, in the order first given (a set stored with `INSERT OR IGNORE`).
pub open spec fn distinct_in_order(ids: Seq<i64>) -> Seq<i64>
    decreases ids.len(),
{
    if ids.len() == 0 {
        seq![]
    } else {
        let prev = distinct_in_order(ids.drop_last());
        if prev.contains(ids.last()) { prev } else { prev.push(ids.last()) }
    }
}

/// A label set holds each id once, and exactly the ids given.
pub proof fn law_distinct_ids(ids: Seq<i64>)
    ensures
        distinct_in_order(ids).no_duplicates(),
        forall|x: i64| #[trigger] distinct_in_order(ids).contains(x) <==> ids.contains(x),
    decreases ids.len(),
{
    if ids.len() > 0 {
        let prev = distinct_in_order(ids.drop_last());
        law_distinct_ids(ids.drop_last());
        let x = ids.last();
        assert forall|y: i64| #[trigger] distinct_in_order(ids).contains(y) <==> ids.contains(y) by {
            if ids.drop_last().contains(y) {
                let w = choose|w: int| 0 <= w < ids.drop_last().len() && ids.drop_last()[w] == y;
                assert(ids[w] == y);
            }
            if ids.contains(y) {
                let w = choose|w: int| 0 <= w < ids.len() && ids[w] == y;
                if w < ids.len() - 1 {
                    assert(ids.drop_last()[w] == y);
                }
            }
            if !prev.contains(x) {
                let cur = prev.push(x);
                assert(cur[cur.len() - 1] == x);
                if cur.contains(y) {
                    let w = choose|w: int| 0 <= w < cur.len() && cur[w] == y;
                    if w < prev.len() {
                        assert(prev[w] == y);
                    }
                }
                if prev.contains(y) {
                    let w = choose|w: int| 0 <= w < prev.len() && prev[w] == y;
                    assert(cur[w] == y);
                }
            }
        }
        if !prev.contains(x) {
            let cur = prev.push(x);
            assert forall|a: int, b: int| 0 <= a < cur.len() && 0 <= b < cur.len() && a != b implies cur[a] != cur[b] by {
                if a == cur.len() - 1 {
                    assert(cur[b] == prev[b]);
                } else if b == cur.len() - 1 {
                    assert(cur[a] == prev[a]);
                } else {
                    assert(cur[a] == prev[a] && cur[b] == prev[b]);
                }
            }
        }
    }
}

/// The labels a task ends up with: each given id once, in the order first given.
pub fn distinct_ids(ids: &[i64]) -> (r: Vec<i64>)
    ensures
        r@ == distinct_in_order(ids@),
{
    let n = ids.len();
    let mut out: Vec<i64> = Vec::new();
    let mut i: usize = 0;
    while i < n
        invariant
            n == ids@.len(),
            i <= n,
            out@ == distinct_in_order(ids@.subrange(0, i as int)),
        decreases n - i,
    {
        let x = ids[i];
        let mut seen = false;
        let mut k: usize = 0;
        while k < out.len()
            invariant
                k <= out@.len(),
                seen <==> exists|j: int| 0 <= j < k && out@[j] == x,
            decreases out@.len() - k,
        {
            if out[k] == x {
                seen = true;
            }
            k = k + 1;
        }
        proof {
            let sv = ids@.subrange(0, i + 1);
            assert(sv.drop_last() =~= ids@.subrange(0, i as int));
            assert(sv.last() == x);
            if seen {
                let j = choose|j: int| 0 <= j < out@.len() && out@[j] == x;
                assert(out@.contains(x));
            }
        }
        if !seen {
            out.push(x);
        }
        i = i + 1;
    }
    proof {
        assert(ids@.subrange(0, n as int) =~= ids@);
    }
    out
}

/// The largest element of a non-empty sequence.
pub open spec fn seq_max(s: Seq<i64>) -> int
    recommends
        s.len() > 0,
    decreases s.len(),
{
    if s.len() <= 1 {
        s[0] as int
    } else {
        let m = seq_max(s.drop_last());
        if s.last() > m { s.last() as int } else { m }
    }
}

/// `COALESCE(MAX(sort_order), 0) + 1` over the existing positions.
pub open spec fn next_sort_spec(s: Seq<i64>) -> int {
    if s.len() == 0 { 1 } else { seq_max(s) + 1 }
}

proof fn lemma_seq_max_is_max(s: Seq<i64>)
    requires
        s.len() > 0,
    ensures
        forall|i: int| 0 <= i < s.len() ==> s[i] <= seq_max(s),
        exists|i: int| 0 <= i < s.len() && s[i] == seq_max(s),
    decreases s.len(),
{
    if s.len() > 1 {
        lemma_seq_max_is_max(s.drop_last());
        let w = choose|i: int| 0 <= i < s.drop_last().len() && s.drop_last()[i] == seq_max(s.drop_last());
        assert(s[w] == s.drop_last()[w]);
        assert forall|i: int| 0 <= i < s.len() implies s[i] <= seq_max(s) by {
            if i < s.len() - 1 {
                assert(s[i] == s.drop_last()[i]);
            }
        }
    } else {
        assert(s[0] == seq_max(s));
    }
}

/// The position after the last one in use: one more than the largest existing
/// position, or 1 when there is none.
pub fn next_sort_order(existing: &[i64]) -> (r: i64)
    requires
        forall|i: int| 0 <= i < existing@.len() ==> #[trigger] existing@[i] < i64::MAX,
    ensures
        r == next_sort_spec(existing@),
        forall|i: int| 0 <= i < existing@.len() ==> #[trigger] existing@[i] < r,
{
    let n = existing.len();
    if n == 0 {
        return 1;
    }
    let mut m: i64 = existing[0];
    let mut i: usize = 1;
    proof {
        assert(existing@.subrange(0, 1).drop_last() =~= seq![]);
    }
    while i < n
        invariant
            n == existing@.len(),
            1 <= i <= n,
            m == seq_max(existing@.subrange(0, i as int)),
        decreases n - i,
    {
        proof {
            assert(existing@.subrange(0, i + 1).drop_last() =~= existing@.subrange(0, i as int));
        }
        if existing[i] > m {
            m = existing[i];
        }
        i = i + 1;
    }
    proof {
        assert(existing@.subrange(0, n as int) =~= existing@);
        lemma_seq_max_is_max(existing@);
        let w = choose|i: int| 0 <= i < existing@.len() && existing@[i] == seq_max(existing@);
        assert(existing@[w] < i64::MAX);
    }
    m + 1
}

/// An update that changed no row names a record that does not exist.
pub fn require_updated(rows_changed: usize, message: &str) -> (r: AppResult<()>)
    ensures
        rows_changed == 0 ==> (r matches Err(e) && e.kind == ErrorKind::NotFound && e.message@ == message@),
        rows_changed > 0 ==> r is Ok,
{
    if rows_changed == 0 {
        return Err(AppError::new(ErrorKind::NotFound, message));
    }
    Ok(())
}

/// Positions for a list put in a new order: each id with its index.
pub fn reorder_positions(ids: &[i64]) -> (r: Vec<(i64, i64)>)
    requires
        ids@.len() <= i64::MAX,
    ensures
        r@.len() == ids@.len(),
        forall|i: int| 0 <= i < r@.len() ==> #[trigger] r@[i] == (ids@[i], i as i64),
{
    let n = ids.len();
    let mut r: Vec<(i64, i64)> = Vec::new();
    let mut i: usize = 0;
    while i < n
        invariant
            n == ids@.len(),
            n <= i64::MAX,
            i <= n,
            r@.len() == i,
            forall|k: int| 0 <= k < i ==> #[trigger] r@[k] == (ids@[k], k as i64),
        decreases n - i,
    {
        r.push((ids[i], i as i64));
        i = i + 1;
    }
    r
}

} // verus!
