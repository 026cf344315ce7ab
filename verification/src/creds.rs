use vstd::prelude::*;
use crate::error::{AppError, AppResult, ErrorKind};
use crate::models::CredInput;
use crate::text::{
    concat2, concat3, contains, ends_with, find, has_char, rfind_char, str_ends_with, str_find,
    str_has_char, str_rfind_char, trim, trim_str,
};

verus! {

/// The view of an optional string slice.
pub open spec fn opt_str_view(o: Option<&str>) -> Option<Seq<char>> {
    match o {
        Some(s) => Some(s@),
        None => None,
    }
}

/// The view of an optional owned string.
pub open spec fn opt_string_view(o: Option<String>) -> Option<Seq<char>> {
    match o {
        Some(s) => Some(s@),
        None => None,
    }
}

/// A credential must have a non-blank label.
pub fn validate(input: &CredInput) -> (r: AppResult<()>)
    ensures
        r is Ok <==> trim(input.label@).len() > 0,
        r matches Err(e) ==> e.kind == ErrorKind::Validation && e.message@
            == "Название креда пусто"@,
{
    if trim_str(input.label.as_str()).unicode_len() == 0 {
        return Err(AppError::new(ErrorKind::Validation, "Название креда пусто"));
    }
    Ok(())
}

/// A character that ends the host part of a URL.
pub open spec fn is_host_end(c: char) -> bool {
    c == '/' || c == '?' || c == '#'
}

fn is_host_end_char(c: char) -> (b: bool)
    ensures
        b == is_host_end(c),
{
    c == '/' || c == '?' || c == '#'
}

/// `k` is the end of the host part of `s`: no separator before it, and it is the end of
/// `s` or a separator.
pub open spec fn host_end_at(s: Seq<char>, k: int) -> bool {
    &&& 0 <= k <= s.len()
    &&& forall|q: int| 0 <= q < k ==> !is_host_end(s[q])
    &&& (k == s.len() || is_host_end(s[k]))
}

/// The text after the first `://` of `u`, or all of `u` when it has none.
pub open spec fn after_scheme(u: Seq<char>) -> Seq<char> {
    if contains(u, "://"@) {
        u.subrange(find(u, "://"@) + 3, u.len() as int)
    } else {
        u
    }
}

/// The host part of `s`: its text up to the first `/`, `?` or `#`.
pub open spec fn host_prefix(s: Seq<char>) -> Seq<char> {
    s.subrange(0, choose|k: int| host_end_at(s, k))
}

/// `host[:port]` of a URL: the scheme `scheme://` and any path, query or fragment cut off.
pub open spec fn extract_host_spec(u: Seq<char>) -> Seq<char> {
    host_prefix(after_scheme(u))
}

proof fn lemma_host_end_unique(s: Seq<char>, a: int, b: int)
    requires
        host_end_at(s, a),
        host_end_at(s, b),
    ensures
        a == b,
{
    if a < b {
        assert(!is_host_end(s[a]));
    } else if b < a {
        assert(!is_host_end(s[b]));
    }
}

/// `host[:port]` of `url`: drops a leading `scheme://` and anything from the first
/// `/`, `?` or `#` on.
pub fn extract_host(url: &str) -> (r: &str)
    ensures
        r@ == extract_host_spec(url@),
{
    let ulen = url.unicode_len();
    let after: &str = match str_find(url, "://") {
        Some(k) => {
            proof {
                reveal_strlit("://");
            }
            url.substring_char(k + 3, ulen)
        },
        None => url,
    };
    let n = after.unicode_len();
    let mut k: usize = 0;
    while k < n && !is_host_end_char(after.get_char(k))
        invariant
            n == after@.len(),
            k <= n,
            forall|q: int| 0 <= q < k ==> !is_host_end(after@[q]),
        decreases n - k,
    {
        k = k + 1;
    }
    proof {
        assert(host_end_at(after@, k as int));
        let w = choose|j: int| host_end_at(after@, j);
        lemma_host_end_unique(after@, w, k as int);
    }
    after.substring_char(0, k)
}

/// The ssh target made of a login and a URL: with a URL, its host (and port) is the
/// server and `username` the login, unless `username` is blank or already holds an `@`;
/// with no URL, `username` itself is `[user@]host`.
pub open spec fn putty_target_spec(username: Seq<char>, url: Seq<char>) -> Seq<char> {
    let user = trim(username);
    let raw = trim(url);
    if raw.len() == 0 {
        user
    } else {
        let host = extract_host_spec(raw);
        if user.len() == 0 || has_char(user, '@') {
            host
        } else {
            user + "@"@ + host
        }
    }
}

/// The ssh target for PuTTY from the `username` and `url` fields of a credential.
pub fn putty_target(username: &str, url: &str) -> (r: String)
    ensures
        r@ == putty_target_spec(username@, url@),
{
    let user = trim_str(username);
    let raw = trim_str(url);
    if raw.unicode_len() == 0 {
        return String::from_str(user);
    }
    let host = extract_host(raw);
    if user.unicode_len() == 0 || str_has_char(user, '@') {
        String::from_str(host)
    } else {
        concat3(user, "@", host)
    }
}

/// Every character of `p` is an ASCII digit.
pub open spec fn all_digits(p: Seq<char>) -> bool {
    forall|q: int| 0 <= q < p.len() ==> '0' <= #[trigger] p[q] && p[q] <= '9'
}

/// `target` split at its last `:` into host and port, when the tail is a non-empty run
/// of digits and the host is not a bare IPv6 address (it holds no `:`, or ends with `]`);
/// otherwise the whole target and no port.
pub open spec fn split_host_port_spec(target: Seq<char>) -> (Seq<char>, Option<Seq<char>>) {
    if has_char(target, ':') {
        let idx = rfind_char(target, ':');
        let h = target.subrange(0, idx);
        let p = target.subrange(idx + 1, target.len() as int);
        if p.len() > 0 && all_digits(p) && (!has_char(h, ':') || ends_with(h, "]"@)) {
            (h, Some(p))
        } else {
            (target, None)
        }
    } else {
        (target, None)
    }
}

/// Split an ssh target into host and trailing `:port` (the port only when it is all
/// digits and the host is not a bare IPv6 address).
pub fn split_host_port(target: &str) -> (r: (&str, Option<&str>))
    ensures
        r.0@ == split_host_port_spec(target@).0,
        opt_str_view(r.1) == split_host_port_spec(target@).1,
{
    match str_rfind_char(target, ':') {
        Some(idx) => {
            let tlen = target.unicode_len();
            let h = target.substring_char(0, idx);
            let p = target.substring_char(idx + 1, tlen);
            let host_ok = !str_has_char(h, ':') || str_ends_with(h, "]");
            let n = p.unicode_len();
            let mut digits = true;
            let mut k: usize = 0;
            while k < n
                invariant
                    n == p@.len(),
                    k <= n,
                    digits == (forall|q: int| 0 <= q < k ==> '0' <= #[trigger] p@[q] && p@[q] <= '9'),
                decreases n - k,
            {
                let c = p.get_char(k);
                if !('0' <= c && c <= '9') {
                    digits = false;
                }
                k = k + 1;
            }
            if n > 0 && digits && host_ok {
                (h, Some(p))
            } else {
                (target, None)
            }
        },
        None => (target, None),
    }
}

/// The argument list (program name excluded) that `build_putty_args` produces: `-ssh host`,
/// then `-P port` when the target has one, then `-i key` when a non-blank key is given,
/// otherwise `-pw password` when a non-empty password is given, then `-t -m script` when a
/// startup script is given.
pub open spec fn putty_args_spec(
    target: Seq<char>,
    key_path: Option<Seq<char>>,
    password: Option<Seq<char>>,
    script_path: Option<Seq<char>>,
) -> Seq<Seq<char>> {
    let (host, port) = split_host_port_spec(target);
    let base = seq!["-ssh"@, host];
    let with_port = match port {
        Some(p) => base + seq!["-P"@, p],
        None => base,
    };
    let with_auth = match key_path {
        Some(k) if trim(k).len() > 0 => with_port + seq!["-i"@, k],
        _ => match password {
            Some(w) if w.len() > 0 => with_port + seq!["-pw"@, w],
            _ => with_port,
        },
    };
    match script_path {
        Some(m) => with_auth + seq!["-t"@, "-m"@, m],
        None => with_auth,
    }
}

/// Append two strings to a vector of strings.
fn push2(v: &mut Vec<String>, a: &str, b: &str)
    ensures
        final(v).deep_view() == old(v).deep_view() + seq![a@, b@],
{
    let ghost before = v.deep_view();
    v.push(String::from_str(a));
    v.push(String::from_str(b));
    proof {
        assert(v.deep_view() =~= before + seq![a@, b@]);
    }
}

/// PuTTY's argument list: key first (then no password is passed), otherwise the
/// password; a startup script adds `-t -m path` so the session stays interactive.
pub fn build_putty_args(
    target: &str,
    key_path: Option<&str>,
    password: Option<&str>,
    script_path: Option<&str>,
) -> (args: Vec<String>)
    ensures
        args.deep_view() == putty_args_spec(
            target@,
            opt_str_view(key_path),
            opt_str_view(password),
            opt_str_view(script_path),
        ),
{
    let (host, port) = split_host_port(target);
    let mut args: Vec<String> = Vec::new();
    push2(&mut args, "-ssh", host);
    match port {
        Some(p) => push2(&mut args, "-P", p),
        None => {},
    }
    let key_given = match key_path {
        Some(k) => trim_str(k).unicode_len() > 0,
        None => false,
    };
    if key_given {
        match key_path {
            Some(k) => push2(&mut args, "-i", k),
            None => {},
        }
    } else {
        match password {
            Some(w) => {
                if w.unicode_len() > 0 {
                    push2(&mut args, "-pw", w);
                }
            },
            None => {},
        }
    }
    match script_path {
        Some(m) => {
            let ghost before = args.deep_view();
            args.push(String::from_str("-t"));
            args.push(String::from_str("-m"));
            args.push(String::from_str(m));
            proof {
                assert(args.deep_view() =~= before + seq!["-t"@, "-m"@, m@]);
            }
        },
        None => {},
    }
    proof {
        let (h, pt) = split_host_port_spec(target@);
        let base = seq!["-ssh"@, h];
        assert(seq![] + seq!["-ssh"@, host@] =~= base);
    }
    args
}

/// A start-up script adds exactly `-t -m <script>` at the end of PuTTY's arguments,
/// whatever key and password the credential has; without one, the list is `-ssh host`
/// followed by flag/value pairs whose flags are only `-P`, `-i` and `-pw`.
pub proof fn law_script_flags(
    target: Seq<char>,
    key: Option<Seq<char>>,
    pw: Option<Seq<char>>,
    m: Seq<char>,
)
    ensures
        ({
            let with = putty_args_spec(target, key, pw, Some(m));
            let without = putty_args_spec(target, key, pw, None);
            &&& with.len() == without.len() + 3
            &&& with.subrange(0, without.len() as int) == without
            &&& with[with.len() - 3] == "-t"@
            &&& with[with.len() - 2] == "-m"@
            &&& with[with.len() - 1] == m
            &&& without.len() % 2 == 0 && 2 <= without.len() <= 6
            &&& without[0] == "-ssh"@
            &&& forall|k: int| 2 <= k < without.len() && k % 2 == 0 ==> (#[trigger] without[k] == "-P"@
                || without[k] == "-i"@ || without[k] == "-pw"@)
        }),
{
    let with = putty_args_spec(target, key, pw, Some(m));
    let without = putty_args_spec(target, key, pw, None);
    assert(with =~= without + seq!["-t"@, "-m"@, m]);
    assert(with.subrange(0, without.len() as int) =~= without);
}

/// When a key is set, the password has no influence on PuTTY's arguments: the key is
/// used and the password is never passed.
pub proof fn law_key_wins_over_password(
    target: Seq<char>,
    key: Seq<char>,
    pw1: Option<Seq<char>>,
    pw2: Option<Seq<char>>,
    script: Option<Seq<char>>,
)
    requires
        trim(key).len() > 0,
    ensures
        putty_args_spec(target, Some(key), pw1, script) == putty_args_spec(
            target,
            Some(key),
            pw2,
            script,
        ),
{
}

/// The body of the script handed to `putty -m`: the user's command, then an interactive
/// login shell (`;` keeps the window open when the command fails); none for a blank
/// command.
pub open spec fn startup_script_spec(cmd: Seq<char>) -> Option<Seq<char>> {
    if trim(cmd).len() == 0 {
        None
    } else {
        Some(trim(cmd) + "; exec $SHELL -l\n"@)
    }
}

/// Script for `putty -m` that runs `cmd` and then stays in an interactive shell.
pub fn startup_script(cmd: &str) -> (r: Option<String>)
    ensures
        opt_string_view(r) == startup_script_spec(cmd@),
{
    let c = trim_str(cmd);
    if c.unicode_len() == 0 {
        return None;
    }
    Some(concat2(c, "; exec $SHELL -l\n"))
}

/// The fields of a credential that opening it in PuTTY reads.
#[derive(Debug)]
pub struct PuttyCred {
    pub username: Option<String>,
    pub url: Option<String>,
    pub key_path: Option<String>,
    pub startup_cmd: Option<String>,
}

/// How a credential is opened in PuTTY: the ssh target, the key (if any), whether the
/// stored password is to be passed, and the start-up script (if any).
#[derive(Debug)]
pub struct LaunchPlan {
    pub target: String,
    pub key_path: Option<String>,
    pub needs_password: bool,
    pub script: Option<String>,
}

/// The text of an optional field, empty when unset.
pub open spec fn or_empty(o: Option<String>) -> Seq<char> {
    match o {
        Some(s) => s@,
        None => seq![],
    }
}

/// A key file is set (and not blank).
pub open spec fn has_key(key_path: Option<String>) -> bool {
    key_path matches Some(k) && trim(k@).len() > 0
}

/// Plan opening a credential in PuTTY: a missing credential is not found; one without a
/// host (neither URL nor `[user@]host`) is refused; the password is wanted only when no
/// key file is set; a start-up command becomes a script.
pub fn plan_putty_launch(cred: Option<PuttyCred>) -> (r: AppResult<LaunchPlan>)
    ensures
        cred is None ==> (r matches Err(e) && e.kind == ErrorKind::NotFound && e.message@ == "Кред не найден"@),
        cred matches Some(c) ==> {
            let t = trim(putty_target_spec(or_empty(c.username), or_empty(c.url)));
            &&& t.len() == 0 ==> (r matches Err(e) && e.kind == ErrorKind::Validation
                && e.message@ == "У креда не указан хост (заполните URL или «Логин / хост»)"@)
            &&& t.len() > 0 ==> (r matches Ok(p) && {
                &&& p.target@ == t
                &&& p.key_path == c.key_path
                &&& p.needs_password == !has_key(c.key_path)
                &&& opt_string_view(p.script) == match c.startup_cmd {
                    Some(s) => startup_script_spec(s@),
                    None => None,
                }
            })
        },
{
    let c = match cred {
        None => {
            return Err(AppError::new(ErrorKind::NotFound, "Кред не найден"));
        },
        Some(c) => c,
    };
    let user: &str = match &c.username {
        Some(u) => u.as_str(),
        None => "",
    };
    let url: &str = match &c.url {
        Some(u) => u.as_str(),
        None => "",
    };
    proof {
        reveal_strlit("");
        assert(user@ == or_empty(c.username));
        assert(url@ == or_empty(c.url));
    }
    let full = putty_target(user, url);
    let t = trim_str(full.as_str());
    if t.unicode_len() == 0 {
        return Err(AppError::new(ErrorKind::Validation, "У креда не указан хост (заполните URL или «Логин / хост»)"));
    }
    let needs_password = match &c.key_path {
        Some(k) => trim_str(k.as_str()).unicode_len() == 0,
        None => true,
    };
    let script = match &c.startup_cmd {
        Some(s) => startup_script(s.as_str()),
        None => None,
    };
    Ok(LaunchPlan { target: String::from_str(t), key_path: c.key_path, needs_password, script })
}

/// Copying a credential to another project: the credential must exist and not be
/// global (a global one is already visible everywhere), and the target project must
/// exist.
pub fn copy_check(is_global: Option<bool>, target_exists: bool) -> (r: AppResult<()>)
    ensures
        is_global is None ==> (r matches Err(e) && e.kind == ErrorKind::NotFound && e.message@ == "Кред не найден"@),
        is_global == Some(true) ==> (r matches Err(e) && e.kind == ErrorKind::Validation
            && e.message@ == "Глобальный кред нельзя копировать: он и так виден во всех проектах"@),
        is_global == Some(false) && !target_exists ==> (r matches Err(e) && e.kind == ErrorKind::NotFound
            && e.message@ == "Проект не найден"@),
        is_global == Some(false) && target_exists ==> r is Ok,
{
    match is_global {
        None => Err(AppError::new(ErrorKind::NotFound, "Кред не найден")),
        Some(true) => Err(AppError::new(
            ErrorKind::Validation,
            "Глобальный кред нельзя копировать: он и так виден во всех проектах",
        )),
        Some(false) => if target_exists {
            Ok(())
        } else {
            Err(AppError::new(ErrorKind::NotFound, "Проект не найден"))
        },
    }
}

/// Where a credential's new position is written: a global one's in the project's own
/// order, a local one's on the credential itself.
#[derive(Debug)]
pub struct CredPosition {
    pub id: i64,
    pub position: i64,
    pub per_project: bool,
}

/// The positions of credentials put in a new order within a project: each id gets its
/// index, written per project for global credentials.
pub fn cred_positions(ids: &[i64], is_global: &[bool]) -> (r: Vec<CredPosition>)
    requires
        ids@.len() == is_global@.len(),
        ids@.len() <= i64::MAX,
    ensures
        r@.len() == ids@.len(),
        forall|i: int| 0 <= i < r@.len() ==> (#[trigger] r@[i]).id == ids@[i] && r@[i].position == i
            && r@[i].per_project == is_global@[i],
{
    let n = ids.len();
    let mut r: Vec<CredPosition> = Vec::new();
    let mut i: usize = 0;
    while i < n
        invariant
            n == ids@.len(),
            n == is_global@.len(),
            n <= i64::MAX,
            i <= n,
            r@.len() == i,
            forall|k: int| 0 <= k < i ==> (#[trigger] r@[k]).id == ids@[k] && r@[k].position == k
                && r@[k].per_project == is_global@[k],
        decreases n - i,
    {
        r.push(CredPosition { id: ids[i], position: i as i64, per_project: is_global[i] });
        i = i + 1;
    }
    r
}

/// What pinning or unpinning a credential does to the per-project orders.
#[derive(Debug)]
pub enum PinChange {
    /// pinned: it keeps its place in its own project's list (an existing place stays)
    RememberHome { cred_id: i64, project_id: i64, position: i64 },
    /// unpinned: every per-project place is forgotten
    ForgetAll { cred_id: i64 },
}

/// The order change when a credential of `home_project` at `home_position` is made
/// global (or no longer global).
pub fn pin_change(cred_id: i64, is_global: bool, home_project: i64, home_position: i64) -> (r: PinChange)
    ensures
        is_global ==> r == (PinChange::RememberHome { cred_id, project_id: home_project, position: home_position }),
        !is_global ==> r == (PinChange::ForgetAll { cred_id }),
{
    if is_global {
        PinChange::RememberHome { cred_id, project_id: home_project, position: home_position }
    } else {
        PinChange::ForgetAll { cred_id }
    }
}

} // verus!
