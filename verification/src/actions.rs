use vstd::prelude::*;
use crate::creds::opt_str_view;
use crate::error::{AppError, AppResult, ErrorKind};
use crate::text::{
    concat2, contains, starts_with, str_contains, str_equal, str_starts_with, string_from_chars,
    trim, trim_str,
};

verus! {

/// `s` without its trailing `c` characters (`str::trim_end_matches` with one char).
pub open spec fn trim_end_char(s: Seq<char>, c: char) -> Seq<char>
    decreases s.len(),
{
    if s.len() > 0 && s.last() == c {
        trim_end_char(s.drop_last(), c)
    } else {
        s
    }
}

/// `s` with every `/` turned into `\`.
pub open spec fn to_backslashes(s: Seq<char>) -> Seq<char> {
    Seq::new(s.len(), |i: int| if s[i] == '/' { '\\' } else { s[i] })
}

/// `t` begins with `~/` or `~\`.
pub open spec fn has_home_prefix(t: Seq<char>) -> bool {
    starts_with(t, seq!['~', '/']) || starts_with(t, seq!['~', '\\'])
}

/// `rest` placed under the home folder: `home` without trailing `\`, a `\`, then `rest`
/// with `\` separators.
pub open spec fn under_home(home: Seq<char>, rest: Seq<char>) -> Seq<char> {
    trim_end_char(home, '\\') + seq!['\\'] + to_backslashes(rest)
}

/// A user path with a leading `~/` or `~\` resolved against the home folder (when one
/// is known); otherwise the path trimmed.
pub open spec fn expand_spec(p: Seq<char>, home: Option<Seq<char>>) -> Seq<char> {
    let t = trim(p);
    if has_home_prefix(t) && home is Some {
        under_home(home.unwrap(), t.subrange(2, t.len() as int))
    } else {
        t
    }
}

/// As `expand_spec`, and a bare `~` is the home folder itself (when one is known).
pub open spec fn expand_path_spec(p: Seq<char>, home: Option<Seq<char>>) -> Seq<char> {
    let t = trim(p);
    if t == seq!['~'] {
        match home {
            Some(h) => h,
            None => t,
        }
    } else {
        expand_spec(p, home)
    }
}

/// `under_home` computed.
fn home_join(home: &str, rest: &str) -> (r: String)
    ensures
        r@ == under_home(home@, rest@),
{
    let n = home.unicode_len();
    proof {
        assert(home@.subrange(0, n as int) =~= home@);
    }
    let mut j: usize = n;
    while j > 0 && home.get_char(j - 1) == '\\'
        invariant
            n == home@.len(),
            j <= n,
            trim_end_char(home@, '\\') == trim_end_char(home@.subrange(0, j as int), '\\'),
        decreases j,
    {
        proof {
            let u = home@.subrange(0, j as int);
            assert(u.drop_last() =~= home@.subrange(0, j - 1));
        }
        j = j - 1;
    }
    let ghost base = home@.subrange(0, j as int);
    proof {
        if j > 0 {
            assert(base.last() == home@[j - 1]);
        }
        assert(trim_end_char(home@, '\\') == base);
    }
    let mut out: Vec<char> = Vec::new();
    let mut k: usize = 0;
    while k < j
        invariant
            j <= n,
            n == home@.len(),
            k <= j,
            out@ == home@.subrange(0, k as int),
        decreases j - k,
    {
        out.push(home.get_char(k));
        proof {
            assert(out@ =~= home@.subrange(0, k + 1));
        }
        k = k + 1;
    }
    out.push('\\');
    let ghost head = out@;
    proof {
        assert(head =~= base + seq!['\\']);
    }
    let m = rest.unicode_len();
    let mut i: usize = 0;
    while i < m
        invariant
            m == rest@.len(),
            i <= m,
            out@ == head + to_backslashes(rest@).subrange(0, i as int),
        decreases m - i,
    {
        let c = rest.get_char(i);
        let d = if c == '/' { '\\' } else { c };
        out.push(d);
        proof {
            assert(out@ =~= head + to_backslashes(rest@).subrange(0, i + 1));
        }
        i = i + 1;
    }
    proof {
        assert(to_backslashes(rest@).subrange(0, m as int) =~= to_backslashes(rest@));
    }
    string_from_chars(out.as_slice())
}

/// Resolve a leading `~/` or `~\` against `home` (the user's profile folder, where
/// known); every other path is only trimmed.
pub fn expand(p: &str, home: Option<&str>) -> (r: String)
    ensures
        r@ == expand_spec(p@, opt_str_view(home)),
{
    let t = trim_str(p);
    proof {
        reveal_strlit("~/");
        reveal_strlit("~\\");
        assert("~/"@ =~= seq!['~', '/']);
        assert("~\\"@ =~= seq!['~', '\\']);
    }
    if str_starts_with(t, "~/") || str_starts_with(t, "~\\") {
        match home {
            Some(h) => {
                let n = t.unicode_len();
                let rest = t.substring_char(2, n);
                return home_join(h, rest);
            },
            None => {},
        }
    }
    String::from_str(t)
}

/// Resolve a leading `~` of a user path: a bare `~` is the home folder, `~/rest` and
/// `~\rest` lie under it; without a known home folder, and for every other path, the
/// path is only trimmed.
pub fn expand_path(path: &str, home: Option<&str>) -> (r: String)
    ensures
        r@ == expand_path_spec(path@, opt_str_view(home)),
{
    let t = trim_str(path);
    proof {
        reveal_strlit("~");
        assert("~"@ =~= seq!['~']);
    }
    if str_equal(t, "~") {
        match home {
            Some(h) => String::from_str(h),
            None => String::from_str(t),
        }
    } else {
        expand(path, home)
    }
}

/// The folder a project action opens: the expanded path, which must be set and (as
/// `is_dir` reports of the expanded path) be an existing folder.
pub fn require_dir(path: &str, home: Option<&str>, is_dir: bool) -> (r: AppResult<String>)
    ensures
        ({
            let p = expand_path_spec(path@, opt_str_view(home));
            &&& p.len() == 0 ==> (r matches Err(e) && e.kind == ErrorKind::Validation
                && e.message@ == "Путь к проекту не задан"@)
            &&& p.len() > 0 && !is_dir ==> (r matches Err(e) && e.kind == ErrorKind::NotFound
                && e.message@ == "Папка не найдена: "@ + p)
            &&& p.len() > 0 && is_dir ==> (r matches Ok(s) && s@ == p)
        }),
{
    let p = expand_path(path, home);
    if p.unicode_len() == 0 {
        return Err(AppError::new(ErrorKind::Validation, "Путь к проекту не задан"));
    }
    if !is_dir {
        return Err(AppError::with_message(ErrorKind::NotFound, concat2("Папка не найдена: ", p.as_str())));
    }
    Ok(p)
}

/// The file or folder a shortcut opens: the expanded path, which must be set and (as
/// `exists` reports of the expanded path) exist.
pub fn require_dir_or_file(path: &str, home: Option<&str>, exists: bool) -> (r: AppResult<String>)
    ensures
        ({
            let p = expand_path_spec(path@, opt_str_view(home));
            &&& p.len() == 0 ==> (r matches Err(e) && e.kind == ErrorKind::Validation
                && e.message@ == "Путь не задан"@)
            &&& p.len() > 0 && !exists ==> (r matches Err(e) && e.kind == ErrorKind::NotFound
                && e.message@ == "Не найдено: "@ + p)
            &&& p.len() > 0 && exists ==> (r matches Ok(s) && s@ == p)
        }),
{
    let p = expand_path(path, home);
    if p.unicode_len() == 0 {
        return Err(AppError::new(ErrorKind::Validation, "Путь не задан"));
    }
    if !exists {
        return Err(AppError::with_message(ErrorKind::NotFound, concat2("Не найдено: ", p.as_str())));
    }
    Ok(p)
}

/// ASCII lower case of one character (`char::to_ascii_lowercase`).
pub open spec fn ascii_lower(c: char) -> char {
    if 'A' <= c && c <= 'Z' {
        ((c as u32) + 32) as char
    } else {
        c
    }
}

/// `s` begins with `p` once `s` is put in ASCII lower case.
pub open spec fn starts_with_ascii_ci(s: Seq<char>, p: Seq<char>) -> bool {
    p.len() <= s.len() && forall|i: int| 0 <= i < p.len() ==> ascii_lower(#[trigger] s[i]) == p[i]
}

/// The link a URL opens: the trimmed URL, with `https://` in front when it names no
/// scheme.
pub open spec fn full_url(u: Seq<char>) -> Seq<char> {
    let t = trim(u);
    if contains(t, seq![':', '/', '/']) {
        t
    } else {
        seq!['h', 't', 't', 'p', 's', ':', '/', '/'] + t
    }
}

/// `s` is an `http://` or `https://` link (scheme in any case).
pub open spec fn is_web_url(s: Seq<char>) -> bool {
    starts_with_ascii_ci(s, seq!['h', 't', 't', 'p', ':', '/', '/'])
        || starts_with_ascii_ci(s, seq!['h', 't', 't', 'p', 's', ':', '/', '/'])
}

/// `char::to_ascii_lowercase`.
pub(crate) fn char_ascii_lower(c: char) -> (r: char)
    ensures
        r == ascii_lower(c),
{
    if 'A' <= c && c <= 'Z' {
        let b: u8 = c as u8;
        let l: u8 = b + 32;
        l as char
    } else {
        c
    }
}

/// Whether `s` begins with `p` when `s` is put in ASCII lower case.
fn starts_with_ci(s: &str, p: &str) -> (b: bool)
    ensures
        b == starts_with_ascii_ci(s@, p@),
{
    let n = s.unicode_len();
    let m = p.unicode_len();
    if m > n {
        return false;
    }
    let mut i: usize = 0;
    while i < m
        invariant
            n == s@.len(),
            m == p@.len(),
            m <= n,
            i <= m,
            forall|k: int| 0 <= k < i ==> ascii_lower(#[trigger] s@[k]) == p@[k],
        decreases m - i,
    {
        if char_ascii_lower(s.get_char(i)) != p.get_char(i) {
            return false;
        }
        i = i + 1;
    }
    true
}

/// Check a link before it is opened in the browser: it must be set; without a scheme it
/// becomes `https://…`; only `http` and `https` are allowed. The link to open comes back.
pub fn normalize_url(url: &str) -> (r: AppResult<String>)
    ensures
        trim(url@).len() == 0 ==> (r matches Err(e) && e.kind == ErrorKind::Validation
            && e.message@ == "URL не задан"@),
        trim(url@).len() > 0 && !is_web_url(full_url(url@)) ==> (r matches Err(e)
            && e.kind == ErrorKind::Validation && e.message@ == "Поддерживаются только http(s)-ссылки"@),
        trim(url@).len() > 0 && is_web_url(full_url(url@)) ==> (r matches Ok(s) && s@ == full_url(url@)),
{
    let u = trim_str(url);
    if u.unicode_len() == 0 {
        return Err(AppError::new(ErrorKind::Validation, "URL не задан"));
    }
    proof {
        reveal_strlit("://");
        reveal_strlit("https://");
        reveal_strlit("http://");
        assert("://"@ =~= seq![':', '/', '/']);
        assert("https://"@ =~= seq!['h', 't', 't', 'p', 's', ':', '/', '/']);
        assert("http://"@ =~= seq!['h', 't', 't', 'p', ':', '/', '/']);
    }
    let full = if str_contains(u, "://") {
        String::from_str(u)
    } else {
        concat2("https://", u)
    };
    if !(starts_with_ci(full.as_str(), "http://") || starts_with_ci(full.as_str(), "https://")) {
        return Err(AppError::new(ErrorKind::Validation, "Поддерживаются только http(s)-ссылки"));
    }
    Ok(full)
}

} // verus!
