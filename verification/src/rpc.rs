//! The DSH JSON-RPC client's rules: which base URL to use, request URLs and ids, and how a
//! reply is judged.
use vstd::prelude::*;
use vstd::string::*;

use crate::json::{
    as_flag, as_text, field, field_in, field_of, field_opt, flag_of, json_parse_bytes, parse_json_bytes, take_field, text_of as json_text,
    JsonValue, JsonView,
};
use crate::text::{
    chars_of, decimal, decimal_string, hex, hex_string, lemma_trim_end_index, opt_text,
    substring, trim, trim_end_by, trim_spec,
};

verus! {

/// The DSH address used when nothing else is known.
pub const DEFAULT_DSH_URL: &'static str = "http://127.0.0.1:3080";

pub open spec fn slash_fn() -> spec_fn(char) -> bool {
    |c: char| c == '/'
}

/// A base URL as configured: trimmed, without trailing slashes.
pub open spec fn normalized_url(url: Seq<char>) -> Seq<char> {
    trim_end_by(trim_spec(url), slash_fn())
}

/// Trims a base URL and drops its trailing slashes.
pub fn normalize_url(url: &str) -> (r: String)
    ensures
        r@ == normalized_url(url@),
{
    let t = trim(url);
    let v = chars_of(t.as_str());
    let mut b: usize = v.len();
    while b > 0 && v[b - 1] == '/'
        invariant
            b <= v@.len(),
            forall|i: int| b <= i < v@.len() ==> v@[i] == '/',
        decreases b,
    {
        b = b - 1;
    }
    proof {
        lemma_trim_end_index(v@, slash_fn(), b as int);
    }
    substring(t.as_str(), 0, b)
}

/// The DSH address found by discovery, if any.
pub struct DshUrlCache {
    pub discovered: Option<String>,
}

impl DshUrlCache {
    /// Nothing discovered yet.
    pub fn new() -> (r: Self)
        ensures
            r.discovered is None,
    {
        DshUrlCache { discovered: None }
    }
}

/// Remembers the discovered DSH address, trimmed and without trailing slashes.
pub fn set_dsh_url(cache: &mut DshUrlCache, url: String)
    ensures
        opt_text(final(cache).discovered) == Some(normalized_url(url@)),
{
    cache.discovered = Some(normalize_url(url.as_str()));
}

/// The DSH address to use: the discovered one when not empty, else the `DSH_PET_URL`
/// setting (normalized) when not empty, else the default.
pub open spec fn chosen_url(discovered: Option<Seq<char>>, env: Option<Seq<char>>) -> Seq<char> {
    match discovered {
        Some(d) if d.len() > 0 => d,
        _ => match env {
            Some(e) if normalized_url(e).len() > 0 => normalized_url(e),
            _ => DEFAULT_DSH_URL@,
        },
    }
}

/// The DSH address to use (see `chosen_url`); `env` is the `DSH_PET_URL` setting.
pub fn dsh_url(cache: &DshUrlCache, env: Option<String>) -> (r: String)
    ensures
        r@ == chosen_url(opt_text(cache.discovered), opt_text(env)),
{
    match &cache.discovered {
        Some(d) => {
            if !d.as_str().is_empty() {
                return d.clone();
            }
        },
        None => {},
    }
    match env {
        Some(e) => {
            let n = normalize_url(e.as_str());
            if !n.as_str().is_empty() {
                return n;
            }
        },
        None => {},
    }
    String::from_str(DEFAULT_DSH_URL)
}

/// `<base>/api/<method>`
pub fn rpc_url(base: &str, method: &str) -> (r: String)
    ensures
        r@ == base@ + "/api/"@ + method@,
{
    let mut r = String::from_str(base);
    r.append("/api/");
    r.append(method);
    r
}

/// A counter for request ids.
pub struct RequestIds {
    pub seq: u64,
}

impl RequestIds {
    /// A counter that starts at zero.
    pub fn new() -> (r: Self)
        ensures
            r.seq == 0,
    {
        RequestIds { seq: 0 }
    }

    /// `<prefix>-<ms>-<seq in hex>`; the counter then moves on, wrapping around.
    pub fn next(&mut self, prefix: &str, ms: u128) -> (r: String)
        ensures
            r@ == prefix@ + "-"@ + decimal(ms as nat) + "-"@ + hex(old(self).seq as nat),
            final(self).seq == (if old(self).seq == u64::MAX {
                0
            } else {
                old(self).seq + 1
            }),
    {
        let seq = self.seq;
        self.seq = if self.seq == u64::MAX {
            0
        } else {
            self.seq + 1
        };
        let mut r = String::from_str(prefix);
        r.append("-");
        let m = decimal_string(ms);
        r.append(m.as_str());
        r.append("-");
        let h = hex_string(seq);
        r.append(h.as_str());
        r
    }
}

/// The id of an RPC request: `pet-<ms>-<seq in hex>`.
pub fn next_rpc_id(ids: &mut RequestIds, ms: u128) -> (r: String)
    ensures
        r@ == "pet"@ + "-"@ + decimal(ms as nat) + "-"@ + hex(old(ids).seq as nat),
        final(ids).seq == (if old(ids).seq == u64::MAX {
            0
        } else {
            old(ids).seq + 1
        }),
{
    ids.next("pet", ms)
}

/// What the engine reads of an RPC reply: `result.ok` and `result.error.message`.
pub struct RpcReply {
    pub ok: Option<bool>,
    pub error_message: Option<String>,
}

impl RpcReply {
    /// Reads `result.ok` and `result.error.message` of a reply body, each when present and
    /// of the right kind.
    pub fn from_json(body: &JsonValue) -> (r: RpcReply)
        ensures
            r.ok == as_flag(field_in(field_of(body@, "result"@), "ok"@)),
            opt_text(r.error_message) == as_text(
                field_in(field_in(field_of(body@, "result"@), "error"@), "message"@),
            ),
    {
        let result = field(body, "result");
        let error = field_opt(result, "error");
        RpcReply {
            ok: flag_of(field_opt(result, "ok")),
            error_message: json_text(field_opt(error, "message")),
        }
    }
}

/// The `result.value` of a reply body, or null when there is none.
pub open spec fn result_value(body: JsonView) -> JsonView {
    match field_in(field_of(body, "result"@), "value"@) {
        Some(v) => v,
        None => JsonView::Null,
    }
}

/// Takes `result.value` out of a reply body (see `result_value`).
pub fn reply_value(body: JsonValue) -> (r: JsonValue)
    ensures
        r@ == result_value(body@),
{
    match take_field(body, "result") {
        Some(result) => match take_field(result, "value") {
            Some(v) => v,
            None => JsonValue::Null,
        },
        None => JsonValue::Null,
    }
}

/// The error of a reply that is not ok.
pub open spec fn reply_error(message: Option<Seq<char>>) -> Seq<char> {
    match message {
        Some(m) => m,
        None => "rpc error"@,
    }
}

/// Accepts a reply whose `result.ok` is `true`; otherwise the error is the reply's message,
/// or `rpc error`.
pub fn check_reply(reply: &RpcReply) -> (r: Result<(), String>)
    ensures
        reply.ok == Some(true) ==> r is Ok,
        reply.ok != Some(true) ==> (r matches Err(e) && e@ == reply_error(opt_text(reply.error_message))),
{
    match reply.ok {
        Some(true) => Ok(()),
        _ => match &reply.error_message {
            Some(m) => Err(m.clone()),
            None => Err(String::from_str("rpc error")),
        },
    }
}

/// The error for a reply body that is not JSON, as the HTTP client words a body it could
/// not decode.
pub open spec fn undecodable_body_message() -> Seq<char> {
    "invalid JSON: error decoding response body"@
}

/// The outcome of a reply body: the error for a body that is not JSON; otherwise the
/// `result.value` of an ok reply (see `result_value`), or the error of a reply that is not
/// ok (see `reply_error`).
pub open spec fn reply_outcome(body: Seq<u8>) -> Result<JsonView, Seq<char>> {
    match json_parse_bytes(body) {
        None => Err(undecodable_body_message()),
        Some(b) => if as_flag(field_in(field_of(b, "result"@), "ok"@)) == Some(true) {
            Ok(result_value(b))
        } else {
            Err(
                reply_error(as_text(field_in(field_in(field_of(b, "result"@), "error"@), "message"@))),
            )
        },
    }
}

/// Reads a reply body (see `reply_outcome`).
pub fn read_reply(body: &[u8]) -> (r: Result<JsonValue, String>)
    ensures
        match reply_outcome(body@) {
            Ok(v) => r matches Ok(x) && x@ == v,
            Err(e) => r matches Err(x) && x@ == e,
        },
{
    let value = match parse_json_bytes(body) {
        Some(b) => b,
        None => return Err(String::from_str("invalid JSON: error decoding response body")),
    };
    match check_reply(&RpcReply::from_json(&value)) {
        Ok(()) => Ok(reply_value(value)),
        Err(e) => Err(e),
    }
}

/// Whether a probe's reply body is JSON whose `result.ok` is `true`.
pub fn reply_is_ok(body: &[u8]) -> (b: bool)
    ensures
        b == match json_parse_bytes(body@) {
            Some(v) => as_flag(field_in(field_of(v, "result"@), "ok"@)) == Some(true),
            None => false,
        },
{
    match parse_json_bytes(body) {
        Some(value) => match RpcReply::from_json(&value).ok {
            Some(true) => true,
            _ => false,
        },
        None => false,
    }
}

/// The error of a reply with an HTTP status other than success: `HTTP <status>`.
pub fn http_status_error(status: &str) -> (r: String)
    ensures
        r@ == "HTTP "@ + status@,
{
    let mut r = String::from_str("HTTP ");
    r.append(status);
    r
}

} // verus!
