use vstd::prelude::*;
use crate::creds::opt_string_view;
use crate::text::{concat2, contains, starts_with, str_contains, str_starts_with, trim, trim_str};

verus! {

/// The result of a project's health check.
#[derive(Debug)]
pub struct HealthResult {
    /// the service answered with a 2xx status
    pub ok: bool,
    /// the service answered at all
    pub reachable: bool,
    /// the HTTP status (0 when nothing answered)
    pub status: u16,
    pub latency_ms: u64,
    /// the `status`/`state`/`health` field of a JSON answer, or the reason it failed
    pub detail: Option<String>,
}

/// The address a health check calls: the trimmed URL, with `https://` in front unless it
/// already starts with `http://` or `https://`.
pub open spec fn health_url_spec(url: Seq<char>) -> Seq<char> {
    let u = trim(url);
    if starts_with(u, "http://"@) || starts_with(u, "https://"@) {
        u
    } else {
        "https://"@ + u
    }
}

/// The address to call for a health check.
pub fn health_url(url: &str) -> (r: String)
    ensures
        r@ == health_url_spec(url@),
{
    let u = trim_str(url);
    if str_starts_with(u, "http://") || str_starts_with(u, "https://") {
        String::from_str(u)
    } else {
        concat2("https://", u)
    }
}

/// What came back from calling the service.
#[derive(Debug)]
pub enum HttpOutcome {
    /// a response with a success or redirect status, its content type and its body
    /// (`None` when the body could not be read as text)
    Answered { status: u16, content_type: String, body: Option<String> },
    /// a response with an error status (4xx/5xx)
    ErrorStatus { code: u16 },
    /// no response: the connection failed or timed out
    Unreachable,
}

/// What `serde_json` finds in `body` under the top-level `key`: the string there, or
/// `None` when the body is not JSON, not an object, has no such key or holds no string
/// under it.
pub uninterp spec fn json_member_str(body: Seq<char>, key: Seq<char>) -> Option<Seq<char>>;

/// `serde_json::from_str::<Value>`, then `Value::get(key)` and `Value::as_str`; the
/// contract names the result.
#[verifier::external_body]
fn json_str_field(body: &str, key: &str) -> (r: Option<String>)
    ensures
        opt_string_view(r) == json_member_str(body@, key@),
{
    let v: serde_json::Value = serde_json::from_str(body).ok()?;
    let s = v.get(key)?.as_str()?;
    Some(s.to_string())
}

/// The status a JSON answer reports: the first of its `status`, `state` and `health`
/// string fields; nothing when the answer is not JSON.
pub open spec fn json_status_spec(content_type: Seq<char>, body: Option<Seq<char>>) -> Option<Seq<char>> {
    if !contains(content_type, "json"@) {
        None
    } else {
        match body {
            None => None,
            Some(b) => if json_member_str(b, "status"@) is Some {
                json_member_str(b, "status"@)
            } else if json_member_str(b, "state"@) is Some {
                json_member_str(b, "state"@)
            } else {
                json_member_str(b, "health"@)
            },
        }
    }
}

/// The status field of an answer whose content type is JSON.
pub fn parse_json_status(content_type: &str, body: Option<String>) -> (r: Option<String>)
    ensures
        opt_string_view(r) == json_status_spec(content_type@, opt_string_view(body)),
{
    if !str_contains(content_type, "json") {
        return None;
    }
    match body {
        None => None,
        Some(b) => {
            let s = json_str_field(b.as_str(), "status");
            if s.is_some() {
                return s;
            }
            let t = json_str_field(b.as_str(), "state");
            if t.is_some() {
                return t;
            }
            json_str_field(b.as_str(), "health")
        },
    }
}

/// The health check's verdict on what came back: a response is reachable, and ok when
/// its status is 2xx; a failed connection is unreachable with status 0.
pub fn health_result(outcome: HttpOutcome, latency_ms: u64) -> (r: HealthResult)
    ensures
        r.latency_ms == latency_ms,
        match outcome {
            HttpOutcome::Answered { status, content_type, body } => {
                &&& r.ok == (200 <= status < 300)
                &&& r.reachable
                &&& r.status == status
                &&& opt_string_view(r.detail) == json_status_spec(content_type@, opt_string_view(body))
            },
            HttpOutcome::ErrorStatus { code } => !r.ok && r.reachable && r.status == code && r.detail is None,
            HttpOutcome::Unreachable => !r.ok && !r.reachable && r.status == 0
                && opt_string_view(r.detail) == Some("сервис недоступен"@),
        },
{
    match outcome {
        HttpOutcome::Answered { status, content_type, body } => {
            let detail = parse_json_status(content_type.as_str(), body);
            HealthResult { ok: 200 <= status && status < 300, reachable: true, status, latency_ms, detail }
        },
        HttpOutcome::ErrorStatus { code } => {
            HealthResult { ok: false, reachable: true, status: code, latency_ms, detail: None }
        },
        HttpOutcome::Unreachable => {
            HealthResult {
                ok: false,
                reachable: false,
                status: 0,
                latency_ms,
                detail: Some(String::from_str("сервис недоступен")),
            }
        },
    }
}

} // verus!
