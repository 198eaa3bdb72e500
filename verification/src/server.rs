//! The HTTP layer's own rules: build options and rate limits, security
//! headers, the request id added to JSON error bodies, the 404 message, and
//! the readiness check with its SMTP probe.
use vstd::prelude::*;

use crate::crypto::utf8;
use crate::error::lit;
use vstd::utf8::decode_utf8;
use crate::text::{chars_of, decimal, has_prefix, parse_u64, parse_u64_spec, starts_with};

verus! {

/// Options of the router: the rate limit (requests per second and burst) and
/// whether the production layers (rate limit, metrics, tracing) are on.
pub struct BuildOpts {
    pub rate_limit_rps: u64,
    pub rate_limit_burst: u32,
    pub production_layers: bool,
}

impl Default for BuildOpts {
    /// 10 requests per second, bursts of 30, production layers on.
    fn default() -> (r: Self)
        ensures
            r.rate_limit_rps == 10,
            r.rate_limit_burst == 30,
            r.production_layers,
    {
        BuildOpts { rate_limit_rps: 10, rate_limit_burst: 30, production_layers: true }
    }
}

impl BuildOpts {
    /// The rate limiter accepts only positive rates and bursts.
    pub open spec fn limits_usable(&self) -> bool {
        self.rate_limit_rps > 0 && self.rate_limit_burst > 0
    }

    /// Whether the rate limiter can be built from these options.
    pub fn rate_limit_usable(&self) -> (r: bool)
        ensures
            r == self.limits_usable(),
    {
        self.rate_limit_rps > 0 && self.rate_limit_burst > 0
    }
}

/// The rate from `RATE_LIMIT_RPS`: its value when it parses, else 10.
pub open spec fn rps_setting(raw: Option<Seq<char>>) -> u64 {
    match raw {
        Some(s) => match parse_u64_spec(s) {
            Some(v) => v,
            None => 10,
        },
        None => 10,
    }
}

/// The burst from `RATE_LIMIT_BURST`: its value when it parses as a 32-bit
/// count, else 30.
pub open spec fn burst_setting(raw: Option<Seq<char>>) -> u32 {
    match raw {
        Some(s) => match parse_u64_spec(s) {
            Some(v) => if v <= u32::MAX {
                v as u32
            } else {
                30
            },
            None => 30,
        },
        None => 30,
    }
}

/// The view of an optional text.
pub open spec fn opt_text(o: Option<&str>) -> Option<Seq<char>> {
    match o {
        Some(s) => Some(s@),
        None => None,
    }
}

/// The options the server runs with, from the two environment values.
pub fn options_from_env(rps: Option<&str>, burst: Option<&str>) -> (r: BuildOpts)
    ensures
        r.rate_limit_rps == rps_setting(opt_text(rps)),
        r.rate_limit_burst == burst_setting(opt_text(burst)),
        r.production_layers,
{
    let rate = match rps {
        Some(s) => match parse_u64(&chars_of(s)) {
            Some(v) => v,
            None => 10,
        },
        None => 10,
    };
    let b = match burst {
        Some(s) => match parse_u64(&chars_of(s)) {
            Some(v) => if v <= 4294967295 {
                v as u32
            } else {
                30
            },
            None => 30,
        },
        None => 30,
    };
    BuildOpts { rate_limit_rps: rate, rate_limit_burst: b, production_layers: true }
}

/// The content security policy of HTML pages (the API docs load their script
/// from cdn.jsdelivr.net).
pub open spec fn html_csp() -> Seq<char> {
    "default-src 'self'; script-src 'self' https://cdn.jsdelivr.net 'unsafe-inline'; style-src 'self' 'unsafe-inline'; img-src 'self' data: blob:; font-src 'self' data:; connect-src 'self'; object-src 'none'; base-uri 'self'; frame-ancestors 'none'"@
}

/// The content security policy of every other answer.
pub open spec fn api_csp() -> Seq<char> {
    "default-src 'none'; frame-ancestors 'none'"@
}

/// The answer is an HTML page.
pub open spec fn is_html(content_type: Option<Seq<char>>) -> bool {
    content_type matches Some(t) && has_prefix(t, "text/html"@)
}

/// The headers set on every answer, in order; the policy depends on whether
/// the answer is HTML (`content_type` is `None` when absent or unreadable).
pub open spec fn security_headers_spec(content_type: Option<Seq<char>>) -> Seq<(Seq<char>, Seq<char>)> {
    seq![
        ("x-content-type-options"@, "nosniff"@),
        ("x-frame-options"@, "DENY"@),
        ("referrer-policy"@, "no-referrer"@),
        ("strict-transport-security"@, "max-age=63072000; includeSubDomains"@),
        ("permissions-policy"@, "interest-cohort=(), geolocation=()"@),
        ("content-security-policy"@, if is_html(content_type) {
            html_csp()
        } else {
            api_csp()
        }),
    ]
}

/// The views of (name, value) pairs.
pub open spec fn pair_views(v: Seq<(String, String)>) -> Seq<(Seq<char>, Seq<char>)> {
    v.map_values(|p: (String, String)| (p.0@, p.1@))
}

/// Whether the text starts with `p`.
fn text_starts_with(s: &str, p: &str) -> (r: bool)
    ensures
        r == has_prefix(s@, p@),
{
    starts_with(&chars_of(s), &chars_of(p))
}

/// The security headers of an answer (see `security_headers_spec`).
pub fn security_headers(content_type: Option<&str>) -> (r: Vec<(String, String)>)
    ensures
        pair_views(r@) == security_headers_spec(opt_text(content_type)),
{
    let html = match content_type {
        Some(t) => text_starts_with(t, "text/html"),
        None => false,
    };
    let csp = if html {
        lit(
            "default-src 'self'; script-src 'self' https://cdn.jsdelivr.net 'unsafe-inline'; style-src 'self' 'unsafe-inline'; img-src 'self' data: blob:; font-src 'self' data:; connect-src 'self'; object-src 'none'; base-uri 'self'; frame-ancestors 'none'",
        )
    } else {
        lit("default-src 'none'; frame-ancestors 'none'")
    };
    let mut v: Vec<(String, String)> = Vec::new();
    v.push((lit("x-content-type-options"), lit("nosniff")));
    v.push((lit("x-frame-options"), lit("DENY")));
    v.push((lit("referrer-policy"), lit("no-referrer")));
    v.push((lit("strict-transport-security"), lit("max-age=63072000; includeSubDomains")));
    v.push((lit("permissions-policy"), lit("interest-cohort=(), geolocation=()")));
    v.push((lit("content-security-policy"), csp));
    assert(pair_views(v@) =~= security_headers_spec(opt_text(content_type)));
    v
}

/// The request id that error bodies carry: the one the request-id layer set,
/// else the `x-request-id` header (each `None` when absent or unreadable).
pub fn request_id(from_layer: Option<String>, from_header: Option<String>) -> (r: Option<String>)
    ensures
        r == match from_layer {
            Some(v) => Some(v),
            None => from_header,
        },
{
    match from_layer {
        Some(v) => Some(v),
        None => from_header,
    }
}

/// A JSON answer with a 4xx or 5xx status.
pub open spec fn rewrites(status: u16, content_type: Option<Seq<char>>) -> bool {
    &&& 400 <= status <= 599
    &&& content_type matches Some(t)
    &&& has_prefix(t, "application/json"@)
}

/// Whether the error-body layer rewrites an answer: only JSON errors.
pub fn should_rewrite(status: u16, content_type: Option<&str>) -> (r: bool)
    ensures
        r == rewrites(status, opt_text(content_type)),
{
    if status < 400 || status > 599 {
        return false;
    }
    match content_type {
        Some(t) => text_starts_with(t, "application/json"),
        None => false,
    }
}

/// Whether `serde_json::from_slice::<Value>` accepts `body`.
pub uninterp spec fn json_parses(body: Seq<u8>) -> bool;

/// What `serde_json::to_vec` gives for the value `serde_json::from_slice`
/// parses from `body`: its compact JSON text.
pub uninterp spec fn json_reserialized(body: Seq<u8>) -> Seq<u8>;

/// The compact JSON text (`serde_json::to_vec`) of the value parsed from
/// `body` after `key` is set to the string `value` where that value is an
/// object without `key` (`entry(key).or_insert(..)`); other values as they
/// were.
pub uninterp spec fn json_with_default(body: Seq<u8>, key: Seq<char>, value: Seq<char>) -> Seq<u8>;

/// `serde_json::from_slice::<Value>` and `serde_json::to_vec`: the body
/// parsed and written again, `None` when it is not JSON. Writing a `Value`
/// does not fail (its maps have string keys, and its `Serialize` never
/// refuses).
#[verifier::external_body]
fn json_reserialize(body: &[u8]) -> (r: Option<Vec<u8>>)
    ensures
        r is Some <==> json_parses(body@),
        r matches Some(b) ==> b@ == json_reserialized(body@),
{
    match serde_json::from_slice::<serde_json::Value>(body) {
        Ok(v) => serde_json::to_vec(&v).ok(),
        Err(_) => None,
    }
}

/// `serde_json::from_str::<Value>` and `serde_json::to_string`: a JSON text
/// written again compactly (object keys sorted, as serde_json's map keeps
/// them), `None` when it is not JSON. The same as `json_reserialize` on the
/// text's UTF-8 bytes; the output is valid UTF-8.
#[verifier::external_body]
pub(crate) fn json_reserialize_text(text: &str) -> (r: Option<String>)
    ensures
        r is Some <==> json_parses(utf8(text@)),
        r matches Some(t) ==> utf8(t@) == json_reserialized(utf8(text@)) && t@ == decode_utf8(
            json_reserialized(utf8(text@)),
        ),
{
    match serde_json::from_str::<serde_json::Value>(text) {
        Ok(v) => serde_json::to_string(&v).ok(),
        Err(_) => None,
    }
}

/// `serde_json::from_slice::<Value>`, `Value::as_object_mut` with
/// `entry(key).or_insert(Value::String(value))`, then `serde_json::to_vec`:
/// `None` when the body is not JSON.
#[verifier::external_body]
fn json_set_default(body: &[u8], key: &str, value: String) -> (r: Option<Vec<u8>>)
    ensures
        r is Some <==> json_parses(body@),
        r matches Some(b) ==> b@ == json_with_default(body@, key@, value@),
{
    let mut v = match serde_json::from_slice::<serde_json::Value>(body) {
        Ok(v) => v,
        Err(_) => return None,
    };
    if let Some(obj) = v.as_object_mut() {
        obj.entry(key).or_insert(serde_json::Value::String(value));
    }
    serde_json::to_vec(&v).ok()
}

/// The body of a JSON error answer, written again by serde_json with
/// `request_id` added to its object when the answer has an id and the object
/// has no such field; a body that is not JSON goes out unchanged.
pub fn with_request_id(body: Vec<u8>, id: Option<String>) -> (r: Vec<u8>)
    ensures
        !json_parses(body@) ==> r@ == body@,
        json_parses(body@) ==> r@ == match id {
            Some(i) => json_with_default(body@, "request_id"@, i@),
            None => json_reserialized(body@),
        },
{
    let out = match id {
        Some(i) => json_set_default(body.as_slice(), "request_id", i),
        None => json_reserialize(body.as_slice()),
    };
    match out {
        Some(b) => b,
        None => body,
    }
}

/// The message of the JSON 404 answer for a path without a route.
pub fn not_found_message(path: &str) -> (r: String)
    ensures
        r@ == "no route for "@ + path@,
{
    let mut m = lit("no route for ");
    m.append(path);
    m
}

/// The API reference page (`/docs`): the Scalar viewer loading the OpenAPI
/// document, served as `text/html; charset=utf-8`.
pub fn docs_page() -> (r: (String, String))
    ensures
        r.0@ == "text/html; charset=utf-8"@,
        r.1@ == "<!doctype html>\n<html>\n<head>\n  <title>Simu API</title>\n  <meta charset=\"utf-8\" />\n  <meta name=\"viewport\" content=\"width=device-width, initial-scale=1\" />\n</head>\n<body>\n  <script\n    id=\"api-reference\"\n    data-url=\"/api-docs/openapi.json\"\n    data-configuration='{\"theme\":\"default\",\"hideDownloadButton\":false}'\n  ></script>\n  <script src=\"https://cdn.jsdelivr.net/npm/@scalar/api-reference\"></script>\n</body>\n</html>"@,
{
    (
        lit("text/html; charset=utf-8"),
        lit(
            "<!doctype html>\n<html>\n<head>\n  <title>Simu API</title>\n  <meta charset=\"utf-8\" />\n  <meta name=\"viewport\" content=\"width=device-width, initial-scale=1\" />\n</head>\n<body>\n  <script\n    id=\"api-reference\"\n    data-url=\"/api-docs/openapi.json\"\n    data-configuration='{\"theme\":\"default\",\"hideDownloadButton\":false}'\n  ></script>\n  <script src=\"https://cdn.jsdelivr.net/npm/@scalar/api-reference\"></script>\n</body>\n</html>",
        ),
    )
}

/// What `/ready` reports of each dependency.
pub struct ReadyReport {
    pub status: u16,
    pub db: String,
    pub s3: String,
    pub smtp: String,
}

/// `ok` or `fail`.
pub open spec fn verdict(b: bool) -> Seq<char> {
    if b {
        "ok"@
    } else {
        "fail"@
    }
}

fn verdict_text(b: bool) -> (r: String)
    ensures
        r@ == verdict(b),
{
    if b {
        lit("ok")
    } else {
        lit("fail")
    }
}

/// `/ready`: 200 when the database and the object store answer, else 503;
/// the mail server is reported but does not decide.
pub fn readiness(db_ok: bool, s3_ok: bool, smtp_ok: bool) -> (r: ReadyReport)
    ensures
        r.status == (if db_ok && s3_ok { 200u16 } else { 503u16 }),
        r.db@ == verdict(db_ok),
        r.s3@ == verdict(s3_ok),
        r.smtp@ == verdict(smtp_ok),
{
    ReadyReport {
        status: if db_ok && s3_ok {
            200
        } else {
            503
        },
        db: verdict_text(db_ok),
        s3: verdict_text(s3_ok),
        smtp: verdict_text(smtp_ok),
    }
}

/// Where the mail server is probed: `SMTP_HOST` (default `localhost`) and
/// `SMTP_PORT` when it parses as a port (default 25).
pub fn smtp_target(host: Option<String>, port: Option<&str>) -> (r: (String, u16))
    ensures
        r.0@ == match host {
            Some(h) => h@,
            None => "localhost"@,
        },
        r.1 == match port {
            Some(p) => match parse_u64_spec(p@) {
                Some(v) => if v <= 65535 {
                    v as u16
                } else {
                    25u16
                },
                None => 25u16,
            },
            None => 25u16,
        },
{
    let h = match host {
        Some(h) => h,
        None => lit("localhost"),
    };
    let p: u16 = match port {
        Some(s) => match parse_u64(&chars_of(s)) {
            Some(v) => if v <= 65535 {
                v as u16
            } else {
                25
            },
            None => 25,
        },
        None => 25,
    };
    (h, p)
}

/// Where the SMTP probe stands.
pub enum SmtpProbe {
    /// Connected, waiting for the greeting.
    AwaitGreeting,
    /// `EHLO` sent, waiting for the answer.
    AwaitHello,
    /// Finished: whether the server answered as a mail server should.
    Done(bool),
}

/// What the probe's driver does next.
pub enum SmtpAction {
    /// Send these bytes, then read the next answer.
    Send(Vec<u8>),
    /// Send `QUIT` (its outcome does not matter) and report success.
    Quit,
    /// Report the outcome.
    Finish(bool),
}

/// What the driver hands back: the bytes read, or a failure (connection,
/// read, write, or the one-second timeout).
pub enum SmtpEvent {
    Read(Vec<u8>),
    Failed,
}

/// `EHLO simu.local\r\n`.
pub open spec fn ehlo_line() -> Seq<u8> {
    seq![69u8, 72u8, 76u8, 79u8, 32u8, 115u8, 105u8, 109u8, 117u8, 46u8, 108u8, 111u8, 99u8, 97u8, 108u8, 13u8, 10u8]
}

/// Whether the bytes start with the three ASCII digits of `code`.
pub open spec fn reply_code(bytes: Seq<u8>, d0: u8, d1: u8, d2: u8) -> bool {
    bytes.len() >= 3 && bytes[0] == d0 && bytes[1] == d1 && bytes[2] == d2
}

/// One step of the probe: a greeting starting `220` is answered with `EHLO`,
/// an answer to it starting `250` ends the probe with success (after
/// `QUIT`); anything else, or a failure, ends it with failure.
pub open spec fn smtp_step_spec(state: SmtpProbe, event: SmtpEvent) -> (SmtpProbe, Option<bool>) {
    match (state, event) {
        (SmtpProbe::AwaitGreeting, SmtpEvent::Read(b)) => if reply_code(b@, 50, 50, 48) {
            (SmtpProbe::AwaitHello, None)
        } else {
            (SmtpProbe::Done(false), Some(false))
        },
        (SmtpProbe::AwaitHello, SmtpEvent::Read(b)) => if reply_code(b@, 50, 53, 48) {
            (SmtpProbe::Done(true), Some(true))
        } else {
            (SmtpProbe::Done(false), Some(false))
        },
        (SmtpProbe::Done(ok), _) => (SmtpProbe::Done(ok), Some(ok)),
        (_, SmtpEvent::Failed) => (SmtpProbe::Done(false), Some(false)),
    }
}

fn code_is(b: &Vec<u8>, d0: u8, d1: u8, d2: u8) -> (r: bool)
    ensures
        r == reply_code(b@, d0, d1, d2),
{
    b.len() >= 3 && b[0] == d0 && b[1] == d1 && b[2] == d2
}

/// Advances the probe by one event and says what the driver does next: the
/// state and outcome follow `smtp_step_spec`; `EHLO simu.local` is sent
/// after a good greeting, `QUIT` after a good hello.
pub fn smtp_step(state: SmtpProbe, event: SmtpEvent) -> (r: (SmtpProbe, SmtpAction))
    ensures
        (r.0, match r.1 {
            SmtpAction::Send(_) => None,
            SmtpAction::Quit => Some(true),
            SmtpAction::Finish(ok) => Some(ok),
        }) == smtp_step_spec(state, event),
        r.1 matches SmtpAction::Send(bytes) ==> bytes@ == ehlo_line(),
{
    match state {
        SmtpProbe::Done(ok) => (SmtpProbe::Done(ok), SmtpAction::Finish(ok)),
        SmtpProbe::AwaitGreeting => match event {
            SmtpEvent::Read(b) => {
                if code_is(&b, 50, 50, 48) {
                    let line: Vec<u8> = vec![69u8, 72u8, 76u8, 79u8, 32u8, 115u8, 105u8, 109u8, 117u8, 46u8, 108u8, 111u8, 99u8, 97u8, 108u8, 13u8, 10u8];
                    assert(line@ =~= ehlo_line());
                    (SmtpProbe::AwaitHello, SmtpAction::Send(line))
                } else {
                    (SmtpProbe::Done(false), SmtpAction::Finish(false))
                }
            },
            SmtpEvent::Failed => (SmtpProbe::Done(false), SmtpAction::Finish(false)),
        },
        SmtpProbe::AwaitHello => match event {
            SmtpEvent::Read(b) => {
                if code_is(&b, 50, 53, 48) {
                    (SmtpProbe::Done(true), SmtpAction::Quit)
                } else {
                    (SmtpProbe::Done(false), SmtpAction::Finish(false))
                }
            },
            SmtpEvent::Failed => (SmtpProbe::Done(false), SmtpAction::Finish(false)),
        },
    }
}

/// The probe succeeds only through a `220` greeting and then a `250` hello:
/// from the start, two reads with those codes end it with success, and a
/// failure at any point ends it with failure.
pub proof fn lemma_probe_success_path(greeting: Vec<u8>, hello: Vec<u8>)
    requires
        reply_code(greeting@, 50, 50, 48),
        reply_code(hello@, 50, 53, 48),
    ensures
        smtp_step_spec(SmtpProbe::AwaitGreeting, SmtpEvent::Read(greeting)).0 == SmtpProbe::AwaitHello,
        smtp_step_spec(SmtpProbe::AwaitHello, SmtpEvent::Read(hello)) == (SmtpProbe::Done(true), Some(true)),
        smtp_step_spec(SmtpProbe::AwaitGreeting, SmtpEvent::Failed) == (SmtpProbe::Done(false), Some(false)),
        smtp_step_spec(SmtpProbe::AwaitHello, SmtpEvent::Failed) == (SmtpProbe::Done(false), Some(false)),
{
}

/// Rate-limit settings: 10 requests per second and a burst of 30 unless
/// set; a decimal value is taken as written (the burst only up to the
/// largest 32-bit count); text that is not a number falls back to the
/// default.
pub proof fn lemma_rate_settings(n: u64, s: Seq<char>)
    ensures
        rps_setting(None) == 10,
        burst_setting(None) == 30,
        rps_setting(Some(decimal(n as nat))) == n,
        n <= u32::MAX ==> burst_setting(Some(decimal(n as nat))) == n,
        parse_u64_spec(s) is None ==> rps_setting(Some(s)) == 10 && burst_setting(Some(s)) == 30,
{
    crate::auth::lemma_decimal_digits(n as nat);
    assert(crate::text::is_digit(decimal(n as nat)[0]));
}

/// The error-body layer rewrites exactly the answers with a 4xx or 5xx
/// status whose type starts with `application/json`.
pub proof fn lemma_rewrite_rule(status: u16, t: Seq<char>)
    ensures
        (status < 400 || status > 599) ==> !rewrites(status, Some(t)),
        !rewrites(status, None),
        400 <= status <= 599 ==> (rewrites(status, Some("application/json"@ + t))),
        400 <= status <= 599 ==> (rewrites(status, Some(t)) <==> (t.len() >= 16 && t.subrange(0, 16)
            == "application/json"@)),
{
    reveal_strlit("application/json");
    assert(("application/json"@ + t).subrange(0, 16) =~= "application/json"@);
}

/// Security headers: the same five fixed headers on every answer, then a
/// content security policy that is the HTML one exactly for `text/html`
/// answers.
pub proof fn lemma_security_headers_rule(content_type: Option<Seq<char>>)
    ensures
        security_headers_spec(content_type).len() == 6,
        security_headers_spec(content_type)[0] == ("x-content-type-options"@, "nosniff"@),
        security_headers_spec(content_type)[1] == ("x-frame-options"@, "DENY"@),
        security_headers_spec(content_type)[5].0 == "content-security-policy"@,
        (content_type matches Some(t) && t.len() >= 9 && t.subrange(0, 9) == "text/html"@)
            ==> security_headers_spec(content_type)[5].1 == html_csp(),
        (content_type is None || (content_type->0.len() < 9 || content_type->0.subrange(0, 9) != "text/html"@))
            ==> security_headers_spec(content_type)[5].1 == api_csp(),
{
    reveal_strlit("text/html");
}

/// The SMTP probe: a greeting that is not `220` fails it, an answer to
/// `EHLO` that is not `250` fails it, a failed read or write fails it, and
/// a finished probe keeps its outcome.
pub proof fn lemma_probe_failures(b: Vec<u8>, ok: bool)
    ensures
        !(b@.len() >= 3 && b@[0] == 50 && b@[1] == 50 && b@[2] == 48) ==> smtp_step_spec(
            SmtpProbe::AwaitGreeting,
            SmtpEvent::Read(b),
        ) == (SmtpProbe::Done(false), Some(false)),
        !(b@.len() >= 3 && b@[0] == 50 && b@[1] == 53 && b@[2] == 48) ==> smtp_step_spec(
            SmtpProbe::AwaitHello,
            SmtpEvent::Read(b),
        ) == (SmtpProbe::Done(false), Some(false)),
        smtp_step_spec(SmtpProbe::AwaitGreeting, SmtpEvent::Failed) == (SmtpProbe::Done(false), Some(false)),
        smtp_step_spec(SmtpProbe::AwaitHello, SmtpEvent::Failed) == (SmtpProbe::Done(false), Some(false)),
        smtp_step_spec(SmtpProbe::Done(ok), SmtpEvent::Read(b)).1 == Some(ok),
{
}

/// Readiness reports each dependency as `ok` when it answered and `fail`
/// when it did not.
pub proof fn lemma_verdict_words()
    ensures
        verdict(true) == "ok"@,
        verdict(false) == "fail"@,
        verdict(true) != verdict(false),
{
    reveal_strlit("ok");
    reveal_strlit("fail");
}

} // verus!
