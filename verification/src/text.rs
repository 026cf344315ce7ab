use vstd::prelude::*;

verus! {

/// Unicode `White_Space`: the characters `char::is_whitespace` accepts.
pub open spec fn is_ws(c: char) -> bool {
    ||| ('\t' <= c && c <= '\r')
    ||| c == ' '
    ||| c == '\u{85}'
    ||| c == '\u{A0}'
    ||| c == '\u{1680}'
    ||| ('\u{2000}' <= c && c <= '\u{200A}')
    ||| c == '\u{2028}'
    ||| c == '\u{2029}'
    ||| c == '\u{202F}'
    ||| c == '\u{205F}'
    ||| c == '\u{3000}'
}

/// `s` without its leading whitespace.
pub open spec fn trim_start(s: Seq<char>) -> Seq<char>
    decreases s.len(),
{
    if s.len() > 0 && is_ws(s[0]) {
        trim_start(s.drop_first())
    } else {
        s
    }
}

/// `s` without its trailing whitespace.
pub open spec fn trim_end(s: Seq<char>) -> Seq<char>
    decreases s.len(),
{
    if s.len() > 0 && is_ws(s.last()) {
        trim_end(s.drop_last())
    } else {
        s
    }
}

/// `s` without whitespace at either end (`str::trim`).
pub open spec fn trim(s: Seq<char>) -> Seq<char> {
    trim_end(trim_start(s))
}

/// `p` is a prefix of `s`.
pub open spec fn starts_with(s: Seq<char>, p: Seq<char>) -> bool {
    p.len() <= s.len() && s.subrange(0, p.len() as int) == p
}

/// `p` is a suffix of `s`.
pub open spec fn ends_with(s: Seq<char>, p: Seq<char>) -> bool {
    p.len() <= s.len() && s.subrange(s.len() - p.len(), s.len() as int) == p
}

/// `t` occurs in `s` at position `k`.
pub open spec fn occurs_at(s: Seq<char>, t: Seq<char>, k: int) -> bool {
    0 <= k && k + t.len() <= s.len() && s.subrange(k, k + t.len()) == t
}

/// `t` occurs somewhere in `s`.
pub open spec fn contains(s: Seq<char>, t: Seq<char>) -> bool {
    exists|k: int| occurs_at(s, t, k)
}

/// `c` occurs in `s`.
pub open spec fn has_char(s: Seq<char>, c: char) -> bool {
    exists|k: int| 0 <= k < s.len() && s[k] == c
}

/// Whether a character is whitespace.
pub fn char_is_ws(c: char) -> (b: bool)
    ensures
        b == is_ws(c),
{
    ('\t' <= c && c <= '\r') || c == ' ' || c == '\u{85}' || c == '\u{A0}' || c == '\u{1680}'
        || ('\u{2000}' <= c && c <= '\u{200A}') || c == '\u{2028}' || c == '\u{2029}'
        || c == '\u{202F}' || c == '\u{205F}' || c == '\u{3000}'
}

proof fn lemma_trim_start_step(s: Seq<char>, i: int)
    requires
        0 <= i < s.len(),
        is_ws(s[i]),
    ensures
        trim_start(s.subrange(i, s.len() as int)) == trim_start(s.subrange(i + 1, s.len() as int)),
{
    let t = s.subrange(i, s.len() as int);
    assert(t.drop_first() =~= s.subrange(i + 1, s.len() as int));
}

proof fn lemma_trim_end_step(s: Seq<char>, j: int)
    requires
        0 < j <= s.len(),
        is_ws(s[j - 1]),
    ensures
        trim_end(s.subrange(0, j)) == trim_end(s.subrange(0, j - 1)),
{
    let t = s.subrange(0, j);
    assert(t.drop_last() =~= s.subrange(0, j - 1));
}

/// `str::trim`: `s` without whitespace at either end.
pub fn trim_str(s: &str) -> (r: &str)
    ensures
        r@ == trim(s@),
{
    let n = s.unicode_len();
    proof {
        assert(s@.subrange(0, n as int) =~= s@);
    }
    let mut i: usize = 0;
    while i < n && char_is_ws(s.get_char(i))
        invariant
            n == s@.len(),
            i <= n,
            trim_start(s@) == trim_start(s@.subrange(i as int, n as int)),
        decreases n - i,
    {
        proof {
            lemma_trim_start_step(s@, i as int);
        }
        i = i + 1;
    }
    let ghost t = s@.subrange(i as int, n as int);
    proof {
        assert(s@.subrange(0, n as int) =~= s@);
        if i < n {
            assert(t[0] == s@[i as int]);
        }
        assert(trim_start(s@) == t);
    }
    proof {
        assert(t.subrange(0, (n - i) as int) =~= t);
    }
    let mut j: usize = n;
    while j > i && char_is_ws(s.get_char(j - 1))
        invariant
            n == s@.len(),
            i <= j <= n,
            t == s@.subrange(i as int, n as int),
            trim_end(t) == trim_end(t.subrange(0, j - i)),
        decreases j,
    {
        proof {
            assert(t[j - i - 1] == s@[j - 1]);
            lemma_trim_end_step(t, (j - i) as int);
        }
        j = j - 1;
    }
    proof {
        assert(t.subrange(0, (n - i) as int) =~= t);
        let u = t.subrange(0, j - i);
        if j > i {
            assert(u.last() == s@[j - 1]);
        }
        assert(u =~= s@.subrange(i as int, j as int));
    }
    s.substring_char(i, j)
}

/// Whether `p` is a prefix of `s`.
pub fn str_starts_with(s: &str, p: &str) -> (b: bool)
    ensures
        b == starts_with(s@, p@),
{
    let n = s.unicode_len();
    let m = p.unicode_len();
    if m > n {
        return false;
    }
    let mut k: usize = 0;
    while k < m
        invariant
            n == s@.len(),
            m == p@.len(),
            m <= n,
            k <= m,
            forall|q: int| 0 <= q < k ==> s@[q] == p@[q],
        decreases m - k,
    {
        if s.get_char(k) != p.get_char(k) {
            proof {
                assert(s@.subrange(0, m as int)[k as int] != p@[k as int]);
            }
            return false;
        }
        k = k + 1;
    }
    proof {
        assert(s@.subrange(0, m as int) =~= p@);
    }
    true
}

/// Whether `p` is a suffix of `s`.
pub fn str_ends_with(s: &str, p: &str) -> (b: bool)
    ensures
        b == ends_with(s@, p@),
{
    let n = s.unicode_len();
    let m = p.unicode_len();
    if m > n {
        return false;
    }
    let off = n - m;
    let mut k: usize = 0;
    while k < m
        invariant
            n == s@.len(),
            m == p@.len(),
            off == n - m,
            k <= m,
            forall|q: int| 0 <= q < k ==> s@[off + q] == p@[q],
        decreases m - k,
    {
        if s.get_char(off + k) != p.get_char(k) {
            proof {
                assert(s@.subrange(off as int, n as int)[k as int] != p@[k as int]);
            }
            return false;
        }
        k = k + 1;
    }
    proof {
        assert(s@.subrange(off as int, n as int) =~= p@);
    }
    true
}

/// Whether `t` occurs at char position `k` of `s`.
pub fn occurs_at_exec(s: &str, t: &str, k: usize) -> (b: bool)
    requires
        k <= s@.len(),
    ensures
        b == occurs_at(s@, t@, k as int),
{
    let n = s.unicode_len();
    let m = t.unicode_len();
    if m > n - k {
        return false;
    }
    let mut q: usize = 0;
    while q < m
        invariant
            n == s@.len(),
            m == t@.len(),
            k + m <= n,
            q <= m,
            forall|r: int| 0 <= r < q ==> s@[k + r] == t@[r],
        decreases m - q,
    {
        if s.get_char(k + q) != t.get_char(q) {
            proof {
                assert(s@.subrange(k as int, k + m)[q as int] != t@[q as int]);
            }
            return false;
        }
        q = q + 1;
    }
    proof {
        assert(s@.subrange(k as int, k + m) =~= t@);
    }
    true
}

/// Whether `t` occurs in `s` (`str::contains` with a string pattern).
pub fn str_contains(s: &str, t: &str) -> (b: bool)
    ensures
        b == contains(s@, t@),
{
    let n = s.unicode_len();
    let m = t.unicode_len();
    if m > n {
        proof {
            assert forall|k: int| !occurs_at(s@, t@, k) by {}
        }
        return false;
    }
    let mut k: usize = 0;
    while k < n - m
        invariant
            n == s@.len(),
            m == t@.len(),
            m <= n,
            k <= n - m,
            forall|q: int| 0 <= q < k ==> !occurs_at(s@, t@, q),
        decreases n - m - k,
    {
        if occurs_at_exec(s, t, k) {
            return true;
        }
        k = k + 1;
    }
    if occurs_at_exec(s, t, k) {
        return true;
    }
    proof {
        assert forall|q: int| !occurs_at(s@, t@, q) by {
            if 0 <= q && q + m <= n {
                assert(q <= k);
            }
        }
    }
    false
}

/// Whether the character `c` occurs in `s`.
pub fn str_has_char(s: &str, c: char) -> (b: bool)
    ensures
        b == has_char(s@, c),
{
    let n = s.unicode_len();
    let mut k: usize = 0;
    while k < n
        invariant
            n == s@.len(),
            k <= n,
            forall|q: int| 0 <= q < k ==> s@[q] != c,
        decreases n - k,
    {
        if s.get_char(k) == c {
            return true;
        }
        k = k + 1;
    }
    false
}

/// `k` is the first position where `t` occurs in `s`.
pub open spec fn first_occurrence(s: Seq<char>, t: Seq<char>, k: int) -> bool {
    occurs_at(s, t, k) && forall|q: int| 0 <= q < k ==> !occurs_at(s, t, q)
}

/// There is at most one first occurrence.
pub proof fn lemma_first_occurrence_unique(s: Seq<char>, t: Seq<char>, a: int, b: int)
    requires
        first_occurrence(s, t, a),
        first_occurrence(s, t, b),
    ensures
        a == b,
{
    if a < b {
        assert(!occurs_at(s, t, a));
    } else if b < a {
        assert(!occurs_at(s, t, b));
    }
}

/// The position of the first occurrence of `t` in `s` (meaningful when `contains(s, t)`).
pub open spec fn find(s: Seq<char>, t: Seq<char>) -> int {
    choose|k: int| first_occurrence(s, t, k)
}

/// `k` is the last position of the character `c` in `s`.
pub open spec fn last_index(s: Seq<char>, c: char, k: int) -> bool {
    0 <= k < s.len() && s[k] == c && forall|q: int| k < q < s.len() ==> s[q] != c
}

/// There is at most one last position.
pub proof fn lemma_last_index_unique(s: Seq<char>, c: char, a: int, b: int)
    requires
        last_index(s, c, a),
        last_index(s, c, b),
    ensures
        a == b,
{
}

/// The last position of `c` in `s` (meaningful when `has_char(s, c)`).
pub open spec fn rfind_char(s: Seq<char>, c: char) -> int {
    choose|k: int| last_index(s, c, k)
}

/// The first position where `t` occurs in `s` (`str::find` with a string pattern, by chars).
pub fn str_find(s: &str, t: &str) -> (r: Option<usize>)
    ensures
        r matches Some(k) ==> first_occurrence(s@, t@, k as int) && find(s@, t@) == k,
        r is None ==> !contains(s@, t@),
{
    let n = s.unicode_len();
    let m = t.unicode_len();
    if m > n {
        proof {
            assert forall|k: int| !occurs_at(s@, t@, k) by {}
        }
        return None;
    }
    let mut k: usize = 0;
    while k <= n - m
        invariant
            n == s@.len(),
            m == t@.len(),
            m <= n,
            k <= n - m + 1,
            forall|q: int| 0 <= q < k ==> !occurs_at(s@, t@, q),
        decreases n - m + 1 - k,
    {
        if occurs_at_exec(s, t, k) {
            proof {
                assert(first_occurrence(s@, t@, k as int));
                let c = find(s@, t@);
                lemma_first_occurrence_unique(s@, t@, c, k as int);
            }
            return Some(k);
        }
        if k == n - m {
            proof {
                assert forall|q: int| !occurs_at(s@, t@, q) by {
                    if 0 <= q && q + m <= n {
                        assert(q <= k);
                    }
                }
            }
            return None;
        }
        k = k + 1;
    }
    proof {
        assert forall|q: int| !occurs_at(s@, t@, q) by {
            if 0 <= q && q + m <= n {
                assert(q < k);
            }
        }
    }
    None
}

/// The last position of the character `c` in `s` (`str::rfind` with a char, by chars).
pub fn str_rfind_char(s: &str, c: char) -> (r: Option<usize>)
    ensures
        r matches Some(k) ==> last_index(s@, c, k as int) && rfind_char(s@, c) == k,
        r is None ==> !has_char(s@, c),
{
    let n = s.unicode_len();
    let mut j: usize = n;
    while j > 0
        invariant
            n == s@.len(),
            j <= n,
            forall|q: int| j <= q < n ==> s@[q] != c,
        decreases j,
    {
        if s.get_char(j - 1) == c {
            proof {
                assert(last_index(s@, c, j - 1));
                let w = rfind_char(s@, c);
                lemma_last_index_unique(s@, c, w, j - 1);
            }
            return Some(j - 1);
        }
        j = j - 1;
    }
    None
}

/// `a` sorts before `b`: lexicographic order by code point (that of SQLite's `BINARY`
/// collation on UTF-8 text).
pub open spec fn lex_lt(a: Seq<char>, b: Seq<char>) -> bool
    decreases a.len(),
{
    if a.len() == 0 {
        b.len() > 0
    } else if b.len() == 0 {
        false
    } else if a[0] != b[0] {
        a[0] < b[0]
    } else {
        lex_lt(a.drop_first(), b.drop_first())
    }
}

/// Exactly one of `a < b`, `a == b`, `b < a` holds.
pub proof fn lemma_lex_trichotomy(a: Seq<char>, b: Seq<char>)
    ensures
        lex_lt(a, b) || a == b || lex_lt(b, a),
        !(lex_lt(a, b) && lex_lt(b, a)),
        !lex_lt(a, a),
    decreases a.len(),
{
    if a.len() > 0 && b.len() > 0 {
        lemma_lex_trichotomy(a.drop_first(), b.drop_first());
        lemma_lex_trichotomy(a.drop_first(), a.drop_first());
        if a[0] == b[0] && a.drop_first() == b.drop_first() {
            assert forall|i: int| 0 <= i < a.len() implies a[i] == b[i] by {
                if i > 0 {
                    assert(a[i] == a.drop_first()[i - 1]);
                    assert(b[i] == b.drop_first()[i - 1]);
                }
            }
            assert(a =~= b);
        }
    } else if a.len() == 0 && b.len() == 0 {
        assert(a =~= b);
    } else if a.len() > 0 {
        lemma_lex_trichotomy(a.drop_first(), a.drop_first());
    }
}

/// `<` on strings is transitive.
pub proof fn lemma_lex_transitive(a: Seq<char>, b: Seq<char>, c: Seq<char>)
    requires
        lex_lt(a, b),
        lex_lt(b, c),
    ensures
        lex_lt(a, c),
    decreases a.len(),
{
    if a.len() > 0 && b.len() > 0 && c.len() > 0 {
        if a[0] == b[0] && b[0] == c[0] {
            lemma_lex_transitive(a.drop_first(), b.drop_first(), c.drop_first());
        }
    }
}

/// Whether `a` sorts before `b` (code point order).
pub fn str_lt(a: &str, b: &str) -> (r: bool)
    ensures
        r == lex_lt(a@, b@),
{
    let na = a.unicode_len();
    let nb = b.unicode_len();
    proof {
        assert(a@.subrange(0, na as int) =~= a@);
        assert(b@.subrange(0, nb as int) =~= b@);
    }
    let mut i: usize = 0;
    while i < na && i < nb && a.get_char(i) == b.get_char(i)
        invariant
            na == a@.len(),
            nb == b@.len(),
            i <= na,
            i <= nb,
            lex_lt(a@, b@) == lex_lt(a@.subrange(i as int, na as int), b@.subrange(i as int, nb as int)),
        decreases na - i,
    {
        proof {
            let x = a@.subrange(i as int, na as int);
            let y = b@.subrange(i as int, nb as int);
            assert(x.drop_first() =~= a@.subrange(i + 1, na as int));
            assert(y.drop_first() =~= b@.subrange(i + 1, nb as int));
        }
        i = i + 1;
    }
    proof {
        let x = a@.subrange(i as int, na as int);
        let y = b@.subrange(i as int, nb as int);
        if i < na && i < nb {
            assert(x[0] == a@[i as int]);
            assert(y[0] == b@[i as int]);
        }
    }
    if i == na {
        i < nb
    } else if i == nb {
        false
    } else {
        a.get_char(i) < b.get_char(i)
    }
}

/// Whether two strings are equal.
pub fn str_equal(a: &str, b: &str) -> (r: bool)
    ensures
        r == (a@ == b@),
{
    let n = a.unicode_len();
    if n != b.unicode_len() {
        return false;
    }
    let mut k: usize = 0;
    while k < n
        invariant
            n == a@.len(),
            n == b@.len(),
            k <= n,
            forall|q: int| 0 <= q < k ==> a@[q] == b@[q],
        decreases n - k,
    {
        if a.get_char(k) != b.get_char(k) {
            return false;
        }
        k = k + 1;
    }
    proof {
        assert(a@ =~= b@);
    }
    true
}

/// Whether two byte slices are equal.
pub fn bytes_equal(a: &[u8], b: &[u8]) -> (r: bool)
    ensures
        r == (a@ == b@),
{
    let n = a.len();
    if n != b.len() {
        return false;
    }
    let mut k: usize = 0;
    while k < n
        invariant
            n == a@.len(),
            n == b@.len(),
            k <= n,
            forall|q: int| 0 <= q < k ==> a@[q] == b@[q],
        decreases n - k,
    {
        if a[k] != b[k] {
            return false;
        }
        k = k + 1;
    }
    proof {
        assert(a@ =~= b@);
    }
    true
}

/// A new string holding `a` followed by `b`.
pub fn concat2(a: &str, b: &str) -> (r: String)
    ensures
        r@ == a@ + b@,
{
    let mut r = String::from_str(a);
    r.append(b);
    r
}

/// A new string holding `a`, `b` and `c` in turn.
pub fn concat3(a: &str, b: &str, c: &str) -> (r: String)
    ensures
        r@ == a@ + b@ + c@,
{
    let mut r = String::from_str(a);
    r.append(b);
    r.append(c);
    r
}

/// The string whose characters are `v`, in order (`String: FromIterator<&char>`).
#[verifier::external_body]
pub(crate) fn string_from_chars(v: &[char]) -> (s: String)
    ensures
        s@ == v@,
{
    v.iter().collect()
}

/// A copy of an optional string.
pub fn clone_opt_string(o: &Option<String>) -> (r: Option<String>)
    ensures
        r == *o,
{
    match o {
        Some(s) => Some(s.clone()),
        None => None,
    }
}

/// The elements of `v` in reverse order.
pub fn reverse_vec<T>(v: Vec<T>) -> (r: Vec<T>)
    ensures
        r@ == v@.reverse(),
{
    let ghost orig = v@;
    let n = v.len();
    let mut v = v;
    let mut r: Vec<T> = Vec::new();
    while v.len() > 0
        invariant
            n == orig.len(),
            v@.len() <= n,
            v@ == orig.subrange(0, v@.len() as int),
            r@ == orig.subrange(v@.len() as int, n as int).reverse(),
        decreases v@.len(),
    {
        let ghost m = v@.len();
        let x = v.pop().unwrap();
        r.push(x);
        proof {
            assert(x == orig[m - 1]);
            assert(v@ =~= orig.subrange(0, m - 1));
            assert(r@ =~= orig.subrange(m - 1, n as int).reverse());
        }
    }
    proof {
        assert(orig.subrange(0, n as int) =~= orig);
    }
    r
}

/// The decimal digits of `n`, most significant first (`u64`'s `Display`).
pub open spec fn decimal(n: nat) -> Seq<char>
    decreases n,
{
    if n < 10 {
        seq![digit_char(n)]
    } else {
        decimal(n / 10).push(digit_char(n % 10))
    }
}

/// The ASCII digit for `d` (0..=9).
pub open spec fn digit_char(d: nat) -> char {
    ((d + 48) as u32) as char
}

/// `n` written in decimal.
pub fn u64_to_decimal(n: u64) -> (s: String)
    ensures
        s@ == decimal(n as nat),
{
    let mut digits: Vec<char> = Vec::new();
    let mut m: u64 = n;
    // digits are produced least significant first, then reversed
    let mut rev: Vec<char> = Vec::new();
    while m >= 10
        invariant
            decimal(n as nat) == decimal(m as nat) + rev@.reverse(),
        decreases m,
    {
        let d = m % 10;
        let ch: char = ((d as u8) + 48u8) as char;
        let ghost old_rev = rev@;
        rev.push(ch);
        proof {
            assert(ch == digit_char(d as nat));
            assert(decimal(m as nat) == decimal((m / 10) as nat).push(digit_char((m % 10) as nat)));
            assert(rev@.reverse() =~= seq![ch] + old_rev.reverse());
            assert(decimal(n as nat) =~= decimal((m / 10) as nat) + rev@.reverse());
        }
        m = m / 10;
    }
    let ch: char = ((m as u8) + 48u8) as char;
    let ghost old_rev = rev@;
    rev.push(ch);
    proof {
        assert(ch == digit_char(m as nat));
        assert(decimal(m as nat) == seq![ch]);
        assert(rev@.reverse() =~= seq![ch] + old_rev.reverse());
        assert(decimal(n as nat) =~= rev@.reverse());
    }
    let len = rev.len();
    let mut k: usize = 0;
    while k < len
        invariant
            len == rev@.len(),
            k <= len,
            digits@ == rev@.reverse().subrange(0, k as int),
        decreases len - k,
    {
        digits.push(rev[len - 1 - k]);
        proof {
            assert(digits@ =~= rev@.reverse().subrange(0, k + 1));
        }
        k = k + 1;
    }
    proof {
        assert(rev@.reverse().subrange(0, len as int) =~= rev@.reverse());
    }
    string_from_chars(digits.as_slice())
}

/// `n` written in decimal, with a leading `-` when negative (`i64`'s `Display`).
pub open spec fn int_decimal(n: int) -> Seq<char> {
    if n < 0 {
        seq!['-'] + decimal((-n) as nat)
    } else {
        decimal(n as nat)
    }
}

/// `n` written in decimal.
pub fn i64_to_decimal(n: i64) -> (s: String)
    ensures
        s@ == int_decimal(n as int),
{
    if n < 0 {
        let wide: i128 = n as i128;
        let m: u64 = (-wide) as u64;
        let d = u64_to_decimal(m);
        proof {
            reveal_strlit("-");
            assert("-"@ =~= seq!['-']);
        }
        concat2("-", d.as_str())
    } else {
        u64_to_decimal(n as u64)
    }
}

} // verus!
