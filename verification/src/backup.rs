use vstd::prelude::*;
use crate::models::BackupInfo;
use crate::text::{
    decimal, ends_with, starts_with, str_ends_with, str_starts_with, string_from_chars, u64_to_decimal,
};

verus! {

/// How many backups are kept.
pub const KEEP: usize = 10;

/// Seconds since the Unix epoch by the system clock (`SystemTime::now` and
/// `duration_since(UNIX_EPOCH)`), `None` for a clock set before 1970. The result depends
/// on the time, so nothing is stated of it.
#[verifier::external_body]
fn unix_time_secs() -> Option<u64> {
    std::time::SystemTime::now().duration_since(std::time::UNIX_EPOCH).ok().map(|d| d.as_secs())
}

/// A clock reading in seconds: the reading, or 0 when the clock is before 1970.
pub fn secs_or_zero(reading: Option<u64>) -> (s: u64)
    ensures
        s == match reading {
            Some(t) => t,
            None => 0,
        },
{
    match reading {
        Some(t) => t,
        None => 0,
    }
}

/// The current time in unix seconds (0 when the clock is before 1970).
pub fn epoch_secs() -> u64 {
    secs_or_zero(unix_time_secs())
}

/// How recent (in seconds) the newest backup must be to skip the backup at start-up.
pub const AUTO_BACKUP_MAX_AGE_SECS: u64 = 72000;

/// A file name is a backup of this application: `devdeck-backup-…db`.
pub open spec fn is_backup_name_spec(name: Seq<char>) -> bool {
    starts_with(name, "devdeck-backup-"@) && ends_with(name, ".db"@)
}

/// Whether a file name is one of this application's backups.
pub fn is_backup_name(name: &str) -> (b: bool)
    ensures
        b == is_backup_name_spec(name@),
{
    str_starts_with(name, "devdeck-backup-") && str_ends_with(name, ".db")
}

/// The file name of a backup: `devdeck-backup-<epoch>-<seq>.db`.
pub open spec fn backup_file_name_spec(epoch: u64, seq: u64) -> Seq<char> {
    "devdeck-backup-"@ + decimal(epoch as nat) + "-"@ + decimal(seq as nat) + ".db"@
}

/// The file name of a backup made at `epoch` (seconds) with sequence number `seq`.
pub fn backup_file_name(epoch: u64, seq: u64) -> (r: String)
    ensures
        r@ == backup_file_name_spec(epoch, seq),
{
    let mut r = String::from_str("devdeck-backup-");
    let e = u64_to_decimal(epoch);
    r.append(e.as_str());
    r.append("-");
    let s = u64_to_decimal(seq);
    r.append(s.as_str());
    r.append(".db");
    r
}

/// `s` with every `'` doubled (the quoting of an SQL string literal).
pub open spec fn sql_escape(s: Seq<char>) -> Seq<char>
    decreases s.len(),
{
    if s.len() == 0 {
        seq![]
    } else if s.last() == '\'' {
        sql_escape(s.drop_last()) + seq!['\'', '\'']
    } else {
        sql_escape(s.drop_last()).push(s.last())
    }
}

/// The statement that writes a consistent copy of the database to `path`.
pub open spec fn vacuum_into_spec(path: Seq<char>) -> Seq<char> {
    seq!['V', 'A', 'C', 'U', 'U', 'M', ' ', 'I', 'N', 'T', 'O', ' ', '\''] + sql_escape(path) + seq![
        '\'',
        ';',
    ]
}

/// `VACUUM INTO '<path>';` with the path quoted as an SQL string literal.
pub fn vacuum_into_sql(path: &str) -> (r: String)
    ensures
        r@ == vacuum_into_spec(path@),
{
    let mut out: Vec<char> = Vec::new();
    out.push('V'); out.push('A'); out.push('C'); out.push('U'); out.push('U'); out.push('M');
    out.push(' '); out.push('I'); out.push('N'); out.push('T'); out.push('O'); out.push(' ');
    out.push('\'');
    let ghost head = out@;
    proof {
        assert(head =~= seq!['V', 'A', 'C', 'U', 'U', 'M', ' ', 'I', 'N', 'T', 'O', ' ', '\'']);
        assert(path@.subrange(0, 0) =~= seq![]);
    }
    let n = path.unicode_len();
    let mut k: usize = 0;
    while k < n
        invariant
            n == path@.len(),
            k <= n,
            out@ == head + sql_escape(path@.subrange(0, k as int)),
        decreases n - k,
    {
        let c = path.get_char(k);
        proof {
            let t = path@.subrange(0, k + 1);
            assert(t.drop_last() =~= path@.subrange(0, k as int));
            assert(t.last() == c);
        }
        let ghost before = out@;
        if c == '\'' {
            out.push('\'');
            out.push('\'');
            proof {
                assert(out@ =~= head + (sql_escape(path@.subrange(0, k as int)) + seq!['\'', '\'']));
            }
        } else {
            out.push(c);
            proof {
                assert(out@ =~= head + sql_escape(path@.subrange(0, k as int)).push(c));
            }
        }
        k = k + 1;
    }
    out.push('\'');
    out.push(';');
    proof {
        assert(path@.subrange(0, n as int) =~= path@);
        assert(out@ =~= vacuum_into_spec(path@));
    }
    string_from_chars(out.as_slice())
}

/// Index `a` goes before index `b` in newest-first order: a later time first, equal
/// times in the order given.
pub open spec fn goes_before(keys: Seq<u64>, a: int, b: int) -> bool {
    keys[a] > keys[b] || (keys[a] == keys[b] && a < b)
}

/// `o` lists the indices of `keys` newest first (a stable sort by time, descending).
pub open spec fn is_newest_first(keys: Seq<u64>, o: Seq<usize>) -> bool {
    &&& o.len() == keys.len()
    &&& o.no_duplicates()
    &&& forall|p: int| 0 <= p < o.len() ==> #[trigger] o[p] < keys.len()
    &&& forall|p: int, q: int| 0 <= p < q < o.len() ==> goes_before(keys, #[trigger] o[p] as int, #[trigger] o[q] as int)
}

/// The indices of `keys` ordered newest first; equal times keep their order.
pub fn newest_first(keys: &[u64]) -> (o: Vec<usize>)
    ensures
        is_newest_first(keys@, o@),
{
    let n = keys.len();
    let mut o: Vec<usize> = Vec::new();
    let mut i: usize = 0;
    while i < n
        invariant
            n == keys@.len(),
            i <= n,
            o@.len() == i,
            o@.no_duplicates(),
            forall|p: int| 0 <= p < o@.len() ==> #[trigger] o@[p] < i,
            forall|p: int, q: int| 0 <= p < q < o@.len() ==> goes_before(keys@, #[trigger] o@[p] as int, #[trigger] o@[q] as int),
        decreases n - i,
    {
        let ki = keys[i];
        let mut pos: usize = 0;
        while pos < o.len() && keys[o[pos]] >= ki
            invariant
                n == keys@.len(),
                i < n,
                ki == keys@[i as int],
                pos <= o@.len(),
                forall|p: int| 0 <= p < o@.len() ==> #[trigger] o@[p] < i,
                forall|p: int| 0 <= p < pos ==> keys@[#[trigger] o@[p] as int] >= ki,
            decreases o@.len() - pos,
        {
            pos = pos + 1;
        }
        let ghost old_o = o@;
        o.insert(pos, i);
        proof {
            assert(o@ =~= old_o.subrange(0, pos as int).push(i) + old_o.subrange(pos as int, old_o.len() as int));
            assert forall|p: int| 0 <= p < o@.len() implies #[trigger] o@[p] < i + 1 by {
                if p < pos {
                    assert(o@[p] == old_o[p]);
                } else if p > pos {
                    assert(o@[p] == old_o[p - 1]);
                }
            }
            assert forall|p: int, q: int| 0 <= p < q < o@.len() implies goes_before(keys@, #[trigger] o@[p] as int, #[trigger] o@[q] as int) by {
                if q < pos {
                    assert(o@[p] == old_o[p] && o@[q] == old_o[q]);
                } else if q == pos {
                    assert(o@[p] == old_o[p]);
                    assert(keys@[old_o[p] as int] >= ki);
                } else if p < pos {
                    assert(o@[p] == old_o[p] && o@[q] == old_o[q - 1]);
                } else if p == pos {
                    assert(o@[q] == old_o[q - 1]);
                    assert(pos < old_o.len());
                    assert(keys@[old_o[pos as int] as int] < ki);
                    if q - 1 > pos {
                        assert(goes_before(keys@, old_o[pos as int] as int, old_o[q - 1] as int));
                    }
                } else {
                    assert(o@[p] == old_o[p - 1] && o@[q] == old_o[q - 1]);
                }
            }
            assert forall|p: int, q: int| 0 <= p < o@.len() && 0 <= q < o@.len() && p != q implies o@[p] != o@[q] by {
                if p != pos && q != pos {
                    let pp = if p < pos { p } else { p - 1 };
                    let qq = if q < pos { q } else { q - 1 };
                    assert(o@[p] == old_o[pp] && o@[q] == old_o[qq]);
                } else if p == pos {
                    let qq = if q < pos { q } else { q - 1 };
                    assert(o@[q] == old_o[qq]);
                } else {
                    let pp = if p < pos { p } else { p - 1 };
                    assert(o@[p] == old_o[pp]);
                }
            }
        }
        i = i + 1;
    }
    o
}

/// The backups to delete so that only the `keep` newest remain: the indices after the
/// first `keep` in newest-first order.
pub fn backups_to_prune(mtimes: &[u64], keep: usize) -> (r: Vec<usize>)
    ensures
        exists|o: Seq<usize>| is_newest_first(mtimes@, o) && r@ == (if keep <= o.len() {
            o.subrange(keep as int, o.len() as int)
        } else {
            seq![]
        }),
        r@.len() == if keep <= mtimes@.len() { mtimes@.len() - keep } else { 0 },
{
    let o = newest_first(mtimes);
    let mut r: Vec<usize> = Vec::new();
    if keep <= o.len() {
        let mut k: usize = keep;
        while k < o.len()
            invariant
                keep <= k <= o@.len(),
                r@ == o@.subrange(keep as int, k as int),
            decreases o@.len() - k,
        {
            r.push(o[k]);
            proof {
                assert(r@ =~= o@.subrange(keep as int, k + 1));
            }
            k = k + 1;
        }
    }
    proof {
        assert(is_newest_first(mtimes@, o@));
    }
    r
}

/// Pruning never deletes a backup newer than one it keeps: in newest-first order, every
/// one of the first `keep` is at least as new as every one after them.
pub proof fn law_prune_keeps_newest(mtimes: Seq<u64>, o: Seq<usize>, keep: int, p: int, q: int)
    requires
        is_newest_first(mtimes, o),
        0 <= p < keep <= q < o.len(),
    ensures
        mtimes[o[p] as int] >= mtimes[o[q] as int],
{
    assert(goes_before(mtimes, o[p] as int, o[q] as int));
}

/// A backup is made at start-up unless the newest one is younger than 20 hours (a
/// newest backup with a time in the future, or none at all, does not count as recent).
pub fn needs_auto_backup(newest_age_secs: Option<u64>) -> (b: bool)
    ensures
        b == !(newest_age_secs matches Some(age) && age < AUTO_BACKUP_MAX_AGE_SECS),
{
    match newest_age_secs {
        Some(age) => !(age < AUTO_BACKUP_MAX_AGE_SECS),
        None => true,
    }
}

/// A file found in the backups folder: name, size and modification time (unix seconds).
#[derive(Debug)]
pub struct FoundFile {
    pub name: String,
    pub size_bytes: u64,
    pub modified_epoch: u64,
}

/// `r` is the backups list made from `found`: `kept` are the indices (ascending) of the
/// files with a backup name, and `o` orders them newest first.
pub open spec fn is_backups_list(found: Seq<FoundFile>, r: Seq<BackupInfo>, kept: Seq<int>, o: Seq<usize>) -> bool {
    &&& kept.len() == r.len()
    &&& forall|p: int, q: int| 0 <= p < q < kept.len() ==> #[trigger] kept[p] < #[trigger] kept[q]
    &&& forall|j: int| 0 <= j < found.len() ==> (is_backup_name_spec(#[trigger] found[j].name@) <==> kept.contains(j))
    &&& is_newest_first(Seq::new(kept.len(), |p: int| found[kept[p]].modified_epoch), o)
    &&& forall|p: int| 0 <= p < r.len() ==> #[trigger] r[p].name@ == found[kept[o[p] as int]].name@
        && r[p].size_bytes == found[kept[o[p] as int]].size_bytes
        && r[p].created_epoch == found[kept[o[p] as int]].modified_epoch
}

/// The backups list: only this application's backup files, newest first (equal times in
/// the order found).
pub fn backups_list(found: &Vec<FoundFile>) -> (r: Vec<BackupInfo>)
    ensures
        exists|kept: Seq<int>, o: Seq<usize>| #[trigger] is_backups_list(found@, r@, kept, o),
{
    let mut keep_idx: Vec<usize> = Vec::new();
    let mut times: Vec<u64> = Vec::new();
    let n = found.len();
    let mut j: usize = 0;
    while j < n
        invariant
            n == found@.len(),
            j <= n,
            keep_idx@.len() == times@.len(),
            forall|p: int| 0 <= p < keep_idx@.len() ==> #[trigger] keep_idx@[p] < j,
            forall|p: int, q: int| 0 <= p < q < keep_idx@.len() ==> #[trigger] keep_idx@[p] < #[trigger] keep_idx@[q],
            forall|x: int| 0 <= x < j ==> (is_backup_name_spec(#[trigger] found@[x].name@) <==> keep_idx@.contains(x as usize)),
            forall|p: int| 0 <= p < times@.len() ==> #[trigger] times@[p] == found@[keep_idx@[p] as int].modified_epoch,
        decreases n - j,
    {
        if is_backup_name(found[j].name.as_str()) {
            let ghost old_k = keep_idx@;
            keep_idx.push(j);
            times.push(found[j].modified_epoch);
            proof {
                assert forall|x: int| 0 <= x < j + 1 implies (is_backup_name_spec(#[trigger] found@[x].name@) <==> keep_idx@.contains(x as usize)) by {
                    if x < j {
                        if old_k.contains(x as usize) {
                            let w = choose|w: int| 0 <= w < old_k.len() && old_k[w] == x as usize;
                            assert(keep_idx@[w] == x as usize);
                        }
                        if keep_idx@.contains(x as usize) {
                            let w = choose|w: int| 0 <= w < keep_idx@.len() && keep_idx@[w] == x as usize;
                            if w < old_k.len() {
                                assert(old_k[w] == x as usize);
                            }
                        }
                    } else {
                        assert(keep_idx@[keep_idx@.len() - 1] == j);
                    }
                }
            }
        } else {
            proof {
                assert(!keep_idx@.contains(j));
            }
        }
        j = j + 1;
    }
    let o = newest_first(times.as_slice());
    let mut r: Vec<BackupInfo> = Vec::new();
    let m = o.len();
    let ghost kept: Seq<int> = Seq::new(keep_idx@.len(), |p: int| keep_idx@[p] as int);
    proof {
        assert(times@ =~= Seq::new(kept.len(), |p: int| found@[kept[p]].modified_epoch));
    }
    let mut p: usize = 0;
    while p < m
        invariant
            m == o@.len(),
            m == times@.len(),
            p <= m,
            r@.len() == p,
            keep_idx@.len() == times@.len(),
            is_newest_first(times@, o@),
            forall|x: int| 0 <= x < keep_idx@.len() ==> #[trigger] keep_idx@[x] < found@.len(),
            forall|x: int| 0 <= x < p ==> #[trigger] r@[x].name@ == found@[keep_idx@[o@[x] as int] as int].name@
                && r@[x].size_bytes == found@[keep_idx@[o@[x] as int] as int].size_bytes
                && r@[x].created_epoch == found@[keep_idx@[o@[x] as int] as int].modified_epoch,
        decreases m - p,
    {
        let src = keep_idx[o[p]];
        let f = &found[src];
        r.push(BackupInfo { name: f.name.clone(), size_bytes: f.size_bytes, created_epoch: f.modified_epoch });
        p = p + 1;
    }
    proof {
        assert forall|x: int| 0 <= x < found@.len() implies (is_backup_name_spec(#[trigger] found@[x].name@) <==> kept.contains(x)) by {
            if keep_idx@.contains(x as usize) {
                let w = choose|w: int| 0 <= w < keep_idx@.len() && keep_idx@[w] == x as usize;
                assert(kept[w] == x);
            }
            if kept.contains(x) {
                let w = choose|w: int| 0 <= w < kept.len() && kept[w] == x;
                assert(keep_idx@[w] == x as usize);
            }
        }
        assert(is_backups_list(found@, r@, kept, o@));
    }
    r
}

} // verus!
