//! Probe execution: the minimal harmless call that proves an interface is
//! alive, and the daily check of the platform's own facades. The library
//! decides what is sent and what an answer means; sending is the
//! caller's.
//!
//! Two MCP kinds, because MCP has two eras: the pinned revision has no
//! `initialize` at all, discovery moved to `server/discover`. Both calls
//! are built by one function, so the two kinds cannot drift apart in what
//! they send.
use vstd::prelude::*;
use crate::model::{DeclaredProbe, Expect, ProbeKind};
use crate::text::{
    ascii_lower, char_position, chars_of, chars_range, find_char, lower_chars, push_chars,
    push_decimal, push_str, decimal, string_of, trim, trim_range,
};

verus! {

/// Outcome of one probe execution.
#[derive(Debug, Clone)]
pub struct ProbeOutcome {
    pub passed: bool,
    pub status: Option<u16>,
    pub latency_ms: u64,
    pub detail: String,
}

/// The HTTP method of a probe request.
#[derive(Debug, Clone, Copy, PartialEq, Eq, Structural)]
pub enum HttpMethod {
    Head,
    Get,
    Post,
}

/// Everything a probe sends.
#[derive(Debug, Clone)]
pub struct ProbeRequest {
    pub method: HttpMethod,
    pub url: String,
    /// Query parameters appended to the URL.
    pub query: Vec<(String, String)>,
    pub headers: Vec<(String, String)>,
    /// A JSON document sent as the body (`application/json; charset=utf-8`).
    pub json_body: Option<String>,
}

/// The MCP revision this platform pins, and the only one the two MCP
/// probes speak.
pub const MCP_REVISION: &'static str = "2026-07-28";

/// The `initialize` call, as the compact document that goes on the wire
/// (members in key order): the envelope plus the handshake-era
/// parameters `initialize` is defined with.
pub const MCP_INITIALIZE_BODY: &'static str = "{\"id\":1,\"jsonrpc\":\"2.0\",\"method\":\"initialize\",\"params\":{\"_meta\":{\"io.modelcontextprotocol/clientCapabilities\":{},\"io.modelcontextprotocol/protocolVersion\":\"2026-07-28\"},\"capabilities\":{},\"clientInfo\":{\"name\":\"oh-check\",\"version\":\"0.1.0\"},\"protocolVersion\":\"2026-07-28\"}}";

/// The `server/discover` call: the envelope alone. An era that keeps no
/// session has no client info to give.
pub const MCP_DISCOVER_BODY: &'static str = "{\"id\":1,\"jsonrpc\":\"2.0\",\"method\":\"server/discover\",\"params\":{\"_meta\":{\"io.modelcontextprotocol/clientCapabilities\":{},\"io.modelcontextprotocol/protocolVersion\":\"2026-07-28\"},\"protocolVersion\":\"2026-07-28\"}}";

/// The JSON-RPC call an MCP probe posts.
pub open spec fn mcp_body(initialize: bool) -> Seq<char> {
    if initialize { MCP_INITIALIZE_BODY@ } else { MCP_DISCOVER_BODY@ }
}

/// The method name an MCP probe calls.
pub open spec fn mcp_method(initialize: bool) -> Seq<char> {
    if initialize { "initialize"@ } else { "server/discover"@ }
}

/// A request over character sequences.
pub struct RequestView {
    pub method: HttpMethod,
    pub url: Seq<char>,
    pub query: Seq<(Seq<char>, Seq<char>)>,
    pub headers: Seq<(Seq<char>, Seq<char>)>,
    pub json_body: Option<Seq<char>>,
}

/// Pairs of strings over character sequences.
pub open spec fn pairs_view(v: Seq<(String, String)>) -> Seq<(Seq<char>, Seq<char>)> {
    v.map_values(|p: (String, String)| (p.0@, p.1@))
}

impl View for ProbeRequest {
    type V = RequestView;

    open spec fn view(&self) -> RequestView {
        RequestView {
            method: self.method,
            url: self.url@,
            query: pairs_view(self.query@),
            headers: pairs_view(self.headers@),
            json_body: match self.json_body {
                Some(b) => Some(b@),
                None => None,
            },
        }
    }
}

/// What each probe kind sends to `url`: a HEAD or a GET; a SPARQL `ASK`
/// asking for a result document; or one MCP call with the complete
/// per-request envelope (both media types in `accept`, the pinned
/// revision and the method in headers).
pub open spec fn request_for(kind: ProbeKind, url: Seq<char>) -> RequestView {
    match kind {
        ProbeKind::HttpHead => RequestView { method: HttpMethod::Head, url, query: seq![], headers: seq![], json_body: None },
        ProbeKind::HttpGet => RequestView { method: HttpMethod::Get, url, query: seq![], headers: seq![], json_body: None },
        ProbeKind::SparqlAsk => RequestView {
            method: HttpMethod::Get,
            url,
            query: seq![("query"@, "ASK {}"@)],
            headers: seq![("accept"@, "application/sparql-results+json"@)],
            json_body: None,
        },
        ProbeKind::McpInitialize => mcp_request(url, true),
        ProbeKind::McpDiscover => mcp_request(url, false),
    }
}

/// The one MCP call both MCP kinds make.
pub open spec fn mcp_request(url: Seq<char>, initialize: bool) -> RequestView {
    RequestView {
        method: HttpMethod::Post,
        url,
        query: seq![],
        headers: seq![
            ("accept"@, "application/json, text/event-stream"@),
            ("mcp-protocol-version"@, MCP_REVISION@),
            ("mcp-method"@, mcp_method(initialize)),
        ],
        json_body: Some(mcp_body(initialize)),
    }
}

fn text(s: &str) -> (r: String)
    ensures
        r@ == s@,
{
    String::from_str(s)
}

fn pair(a: &str, b: &str) -> (r: (String, String))
    ensures
        r.0@ == a@,
        r.1@ == b@,
{
    (text(a), text(b))
}

/// Builds and returns one MCP call: the shared body of both MCP kinds.
fn mcp_call(url: &String, initialize: bool) -> (r: ProbeRequest)
    ensures
        r@ == mcp_request(url@, initialize),
{
    let method = if initialize { "initialize" } else { "server/discover" };
    let body = if initialize { MCP_INITIALIZE_BODY } else { MCP_DISCOVER_BODY };
    let mut headers: Vec<(String, String)> = Vec::new();
    headers.push(pair("accept", "application/json, text/event-stream"));
    headers.push(pair("mcp-protocol-version", MCP_REVISION));
    headers.push(pair("mcp-method", method));
    let r = ProbeRequest {
        method: HttpMethod::Post,
        url: url.clone(),
        query: Vec::new(),
        headers,
        json_body: Some(text(body)),
    };
    assert(pairs_view(r.query@) =~= seq![]);
    assert(pairs_view(r.headers@) =~= mcp_request(url@, initialize).headers);
    r
}

/// The request a declared probe sends.
pub fn probe_request(probe: &DeclaredProbe) -> (r: ProbeRequest)
    ensures
        r@ == request_for(probe.kind, probe.url@),
{
    match probe.kind {
        ProbeKind::HttpHead | ProbeKind::HttpGet => {
            let r = ProbeRequest {
                method: if probe.kind == ProbeKind::HttpHead { HttpMethod::Head } else { HttpMethod::Get },
                url: probe.url.clone(),
                query: Vec::new(),
                headers: Vec::new(),
                json_body: None,
            };
            assert(pairs_view(r.query@) =~= seq![]);
            assert(pairs_view(r.headers@) =~= seq![]);
            r
        },
        ProbeKind::SparqlAsk => {
            let mut query: Vec<(String, String)> = Vec::new();
            query.push(pair("query", "ASK {}"));
            let mut headers: Vec<(String, String)> = Vec::new();
            headers.push(pair("accept", "application/sparql-results+json"));
            let r = ProbeRequest { method: HttpMethod::Get, url: probe.url.clone(), query, headers, json_body: None };
            assert(pairs_view(r.query@) =~= seq![("query"@, "ASK {}"@)]);
            assert(pairs_view(r.headers@) =~= seq![("accept"@, "application/sparql-results+json"@)]);
            r
        },
        ProbeKind::McpInitialize => mcp_call(&probe.url, true),
        ProbeKind::McpDiscover => mcp_call(&probe.url, false),
    }
}

/// The two MCP kinds send the same envelope and differ only in the call.
pub proof fn lemma_mcp_kinds_share_the_envelope(url: Seq<char>)
    ensures
        request_for(ProbeKind::McpInitialize, url).method == request_for(ProbeKind::McpDiscover, url).method,
        request_for(ProbeKind::McpInitialize, url).headers.subrange(0, 2) == request_for(ProbeKind::McpDiscover, url).headers.subrange(0, 2),
        request_for(ProbeKind::McpInitialize, url).headers[2] == ("mcp-method"@, "initialize"@),
        request_for(ProbeKind::McpDiscover, url).headers[2] == ("mcp-method"@, "server/discover"@),
{
    assert(request_for(ProbeKind::McpInitialize, url).headers.subrange(0, 2) =~= request_for(ProbeKind::McpDiscover, url).headers.subrange(0, 2));
}

/// What reading an answer's body as JSON gave.
#[derive(Debug, Clone)]
pub enum BodyJson {
    /// The body was not a JSON document: the reading error as displayed.
    Unreadable(String),
    /// A JSON document; `boolean` is its `boolean` member rendered as
    /// JSON text, when it has one.
    Document { boolean: Option<String> },
}

/// What came back from sending a probe's request.
#[derive(Debug, Clone)]
pub enum ProbeReply {
    /// The transport failed: the error as displayed.
    TransportError(String),
    /// An HTTP answer arrived. The body is read as JSON only when the
    /// probe expects a SPARQL result document.
    Answered { status: u16, body: Option<BodyJson> },
}

/// An outcome over character sequences: passed, status, latency, detail.
pub struct OutcomeView {
    pub passed: bool,
    pub status: Option<u16>,
    pub latency_ms: u64,
    pub detail: Seq<char>,
}

impl View for ProbeOutcome {
    type V = OutcomeView;

    open spec fn view(&self) -> OutcomeView {
        OutcomeView { passed: self.passed, status: self.status, latency_ms: self.latency_ms, detail: self.detail@ }
    }
}

/// The expect semantics, decided on our side: any HTTP answer proves
/// liveness for `response`; `ok` wants a 2xx; `boolean` wants a JSON
/// document with a `boolean` member.
pub open spec fn judged(expect: Expect, status: u16, body: Option<BodyJson>) -> (bool, Seq<char>) {
    match expect {
        Expect::Response => (true, "answered "@ + decimal(status as nat)),
        Expect::Success => (200 <= status < 300, "status "@ + decimal(status as nat) + " (expect 2xx)"@),
        Expect::Boolean => match body {
            Some(BodyJson::Document { boolean: Some(b) }) => (true, "SPARQL result document, boolean="@ + b@),
            Some(BodyJson::Document { boolean: None }) => (false, "JSON without a SPARQL boolean field"@),
            Some(BodyJson::Unreadable(e)) => (false, "no SPARQL result document: "@ + e@),
            None => (false, seq![]),
        },
    }
}

/// The outcome of a probe given what came back.
pub open spec fn probe_outcome(expect: Expect, reply: ProbeReply, latency_ms: u64) -> OutcomeView {
    match reply {
        ProbeReply::TransportError(e) => OutcomeView {
            passed: false,
            status: None,
            latency_ms,
            detail: "transport error: "@ + e@,
        },
        ProbeReply::Answered { status, body } => OutcomeView {
            passed: judged(expect, status, body).0,
            status: Some(status),
            latency_ms,
            detail: judged(expect, status, body).1,
        },
    }
}

/// Whether the reply carries what the expectation reads: a SPARQL
/// expectation needs the body read as JSON.
pub open spec fn reply_fits(expect: Expect, reply: ProbeReply) -> bool {
    match reply {
        ProbeReply::Answered { body, .. } => expect == Expect::Boolean ==> body is Some,
        _ => true,
    }
}

/// Judges one executed probe: what came back, and how long it took.
pub fn execute(probe: &DeclaredProbe, reply: &ProbeReply, latency_ms: u64) -> (r: ProbeOutcome)
    requires
        reply_fits(probe.expect, *reply),
    ensures
        r@ == probe_outcome(probe.expect, *reply, latency_ms),
{
    match reply {
        ProbeReply::TransportError(e) => {
            let mut d: Vec<char> = Vec::new();
            push_str(&mut d, "transport error: ");
            push_str(&mut d, e.as_str());
            ProbeOutcome { passed: false, status: None, latency_ms, detail: string_of(&d) }
        },
        ProbeReply::Answered { status, body } => {
            let (passed, detail) = judge(probe.expect, *status, body);
            ProbeOutcome { passed, status: Some(*status), latency_ms, detail }
        },
    }
}

/// The expect semantics, decided on our side.
fn judge(expect: Expect, status: u16, body: &Option<BodyJson>) -> (r: (bool, String))
    requires
        expect == Expect::Boolean ==> body is Some,
    ensures
        (r.0, r.1@) == judged(expect, status, *body),
{
    let mut d: Vec<char> = Vec::new();
    match expect {
        Expect::Response => {
            push_str(&mut d, "answered ");
            push_decimal(&mut d, status as u64);
            (true, string_of(&d))
        },
        Expect::Success => {
            push_str(&mut d, "status ");
            push_decimal(&mut d, status as u64);
            push_str(&mut d, " (expect 2xx)");
            (200 <= status && status < 300, string_of(&d))
        },
        Expect::Boolean => match body {
            Some(BodyJson::Document { boolean: Some(b) }) => {
                push_str(&mut d, "SPARQL result document, boolean=");
                push_str(&mut d, b.as_str());
                (true, string_of(&d))
            },
            Some(BodyJson::Document { boolean: None }) => {
                (false, text("JSON without a SPARQL boolean field"))
            },
            Some(BodyJson::Unreadable(e)) => {
                push_str(&mut d, "no SPARQL result document: ");
                push_str(&mut d, e.as_str());
                (false, string_of(&d))
            },
            None => (false, string_of(&d)),
        },
    }
}

/// `expect: response` passes on any HTTP answer, whatever its status; a
/// transport failure is a failed outcome with no status.
pub proof fn lemma_any_answer_is_liveness(reply: ProbeReply, latency_ms: u64)
    ensures
        reply is Answered ==> probe_outcome(Expect::Response, reply, latency_ms).passed,
        reply is TransportError ==> !probe_outcome(Expect::Response, reply, latency_ms).passed
            && probe_outcome(Expect::Response, reply, latency_ms).status is None,
{
}

/// One facade the platform publishes about itself.
#[derive(Debug, Clone, Copy)]
pub struct Facade {
    /// Path below the origin.
    pub path: &'static str,
    /// The content type the deployment plan promises. The comparison is
    /// on the media type only: a `charset` parameter may be present or
    /// absent without being a defect.
    pub content_type: &'static str,
}

/// The facade set as (path, content type) pairs, in the order a
/// cold-start reader meets them: the well-known root first, because it
/// is the pointer everything else hangs from.
pub open spec fn facade_plan() -> Seq<(Seq<char>, Seq<char>)> {
    seq![
        ("/.well-known/openhelvetia.json"@, "application/json"@),
        ("/.well-known/security.txt"@, "text/plain"@),
        ("/directory.json"@, "application/json"@),
        ("/llms.txt"@, "text/plain"@),
        ("/robots.txt"@, "text/plain"@),
        ("/sitemap.xml"@, "application/xml"@),
    ]
}

/// The facade set the platform publishes about itself.
pub fn facade_set() -> (set: Vec<Facade>)
    ensures
        set@.len() == facade_plan().len(),
        forall|i: int| 0 <= i < set@.len() ==> ((#[trigger] set@[i]).path@, set@[i].content_type@) == facade_plan()[i],
{
    let set = vec![
        Facade { path: "/.well-known/openhelvetia.json", content_type: "application/json" },
        Facade { path: "/.well-known/security.txt", content_type: "text/plain" },
        Facade { path: "/directory.json", content_type: "application/json" },
        Facade { path: "/llms.txt", content_type: "text/plain" },
        Facade { path: "/robots.txt", content_type: "text/plain" },
        Facade { path: "/sitemap.xml", content_type: "application/xml" },
    ];
    set
}

/// What a facade probe found: three states, because two would lie. The
/// middle one matters: before launch the zone answers while most facades
/// come back `404`. Calling that a defect would be noise; calling it
/// correct would be a false green. It is absent.
#[derive(Debug, Clone, Copy, PartialEq, Eq, Structural)]
pub enum FacadeState {
    /// Served, 2xx, under the content type the plan promises.
    Correct,
    /// Not there yet: the transport failed, or the origin answered
    /// `404`/`410`.
    Absent,
    /// The origin answered and the answer is wrong: a 2xx under the wrong
    /// media type, or any other status.
    Defect,
}

/// What a facade probe found.
#[derive(Debug, Clone)]
pub struct FacadeOutcome {
    /// The full URL probed.
    pub url: String,
    /// Which of the three states applies.
    pub state: FacadeState,
    pub status: Option<u16>,
    /// The media type actually served, without parameters.
    pub content_type: Option<String>,
    pub detail: String,
}

/// What came back from fetching a facade.
#[derive(Debug, Clone)]
pub enum FacadeReply {
    /// The transport failed: the error as displayed.
    Unreachable(String),
    /// An answer arrived, with its `content-type` header when it has one
    /// of visible ASCII.
    Answered { status: u16, content_type: Option<String> },
}

/// `s` without trailing slashes (`trim_end_matches('/')`).
pub open spec fn without_trailing_slashes(s: Seq<char>) -> Seq<char>
    decreases s.len(),
{
    if s.len() > 0 && s.last() == '/' {
        without_trailing_slashes(s.drop_last())
    } else {
        s
    }
}

/// The URL of a facade below an origin.
pub open spec fn facade_target(origin: Seq<char>, path: Seq<char>) -> Seq<char> {
    without_trailing_slashes(origin) + path
}

/// The media type of a `content-type` value: what precedes the first
/// `;`, trimmed and lowered in ASCII.
pub open spec fn media_type(value: Seq<char>) -> Seq<char> {
    ascii_lower(trim(value.subrange(0, char_position(value, ';', 0))))
}

/// A facade outcome over character sequences.
pub struct FacadeView {
    pub url: Seq<char>,
    pub state: FacadeState,
    pub status: Option<u16>,
    pub content_type: Option<Seq<char>>,
    pub detail: Seq<char>,
}

impl View for FacadeOutcome {
    type V = FacadeView;

    open spec fn view(&self) -> FacadeView {
        FacadeView {
            url: self.url@,
            state: self.state,
            status: self.status,
            content_type: match self.content_type {
                Some(c) => Some(c@),
                None => None,
            },
            detail: self.detail@,
        }
    }
}

/// The media type served, if the answer named one.
pub open spec fn served_type(content_type: Option<String>) -> Option<Seq<char>> {
    match content_type {
        Some(v) => Some(media_type(v@)),
        None => None,
    }
}

/// How a facade fares: correct only when a 2xx arrives under the media
/// type it should have; absent when unreachable or `404`/`410`; a defect
/// otherwise.
pub open spec fn facade_verdict(url: Seq<char>, promised: Seq<char>, reply: FacadeReply) -> FacadeView {
    match reply {
        FacadeReply::Unreachable(e) => FacadeView {
            url,
            state: FacadeState::Absent,
            status: None,
            content_type: None,
            detail: "not reachable: "@ + e@,
        },
        FacadeReply::Answered { status, content_type } => {
            let served = served_type(content_type);
            let code = decimal(status as nat);
            let (state, detail) = if 200 <= status <= 299 && served == Some(promised) {
                (FacadeState::Correct, code + ", "@ + promised)
            } else if 200 <= status <= 299 {
                (
                    FacadeState::Defect,
                    "served as "@ + (match served {
                        Some(t) => t,
                        None => "<no content-type>"@,
                    }) + " \u{2014} the runbook \u{a7}3 plan promises "@ + promised,
                )
            } else if status == 404 || status == 410 {
                (FacadeState::Absent, "status "@ + code + " \u{2014} not deployed at this origin yet"@)
            } else {
                (FacadeState::Defect, "status "@ + code + " (expect 2xx)"@)
            };
            FacadeView { url, state, status: Some(status), content_type: served, detail }
        },
    }
}

/// The URL of a facade below `origin` (trailing slashes of the origin
/// dropped).
pub fn facade_url(origin: &str, item: &Facade) -> (r: String)
    ensures
        r@ == facade_target(origin@, item.path@),
{
    let o = chars_of(origin);
    let mut n = o.len();
    assert(o@.subrange(0, n as int) =~= o@);
    while n > 0 && o[n - 1] == '/'
        invariant
            n <= o@.len(),
            without_trailing_slashes(o@) == without_trailing_slashes(o@.subrange(0, n as int)),
        decreases n,
    {
        assert(o@.subrange(0, n as int).drop_last() =~= o@.subrange(0, n - 1));
        n = n - 1;
    }
    let mut out = chars_range(&o, 0, n);
    push_str(&mut out, item.path);
    string_of(&out)
}

/// The media type of a `content-type` value.
fn media_type_of(value: &String) -> (r: String)
    ensures
        r@ == media_type(value@),
{
    let v = chars_of(value.as_str());
    let k = find_char(&v, ';', 0);
    let head = chars_range(&v, 0, k);
    let (a, b) = trim_range(&head, 0, k);
    assert(head@.subrange(0, k as int) =~= head@);
    string_of(&lower_chars(&chars_range(&head, a, b)))
}

/// Judges one facade of one origin, given what fetching it returned.
pub fn facade(origin: &str, item: &Facade, reply: &FacadeReply) -> (r: FacadeOutcome)
    ensures
        r@ == facade_verdict(facade_target(origin@, item.path@), item.content_type@, *reply),
{
    let url = facade_url(origin, item);
    match reply {
        FacadeReply::Unreachable(e) => {
            let mut d: Vec<char> = Vec::new();
            push_str(&mut d, "not reachable: ");
            push_str(&mut d, e.as_str());
            FacadeOutcome { url, state: FacadeState::Absent, status: None, content_type: None, detail: string_of(&d) }
        },
        FacadeReply::Answered { status, content_type } => {
            let status = *status;
            let served: Option<String> = match content_type {
                Some(v) => Some(media_type_of(v)),
                None => None,
            };
            let promised = chars_of(item.content_type);
            let type_ok = match &served {
                Some(t) => crate::text::chars_equal(&chars_of(t.as_str()), &promised),
                None => false,
            };
            let mut d: Vec<char> = Vec::new();
            let state = if 200 <= status && status <= 299 && type_ok {
                push_decimal(&mut d, status as u64);
                push_str(&mut d, ", ");
                push_chars(&mut d, &promised);
                FacadeState::Correct
            } else if 200 <= status && status <= 299 {
                push_str(&mut d, "served as ");
                match &served {
                    Some(t) => push_str(&mut d, t.as_str()),
                    None => push_str(&mut d, "<no content-type>"),
                }
                push_str(&mut d, " \u{2014} the runbook \u{a7}3 plan promises ");
                push_chars(&mut d, &promised);
                FacadeState::Defect
            } else if status == 404 || status == 410 {
                push_str(&mut d, "status ");
                push_decimal(&mut d, status as u64);
                push_str(&mut d, " \u{2014} not deployed at this origin yet");
                FacadeState::Absent
            } else {
                push_str(&mut d, "status ");
                push_decimal(&mut d, status as u64);
                push_str(&mut d, " (expect 2xx)");
                FacadeState::Defect
            };
            FacadeOutcome { url, state, status: Some(status), content_type: served, detail: string_of(&d) }
        },
    }
}

/// A `charset` (or any other) parameter is not part of the comparison:
/// present or absent, the media type is the same.
pub proof fn lemma_parameters_ignored(media: Seq<char>, parameters: Seq<char>)
    requires
        forall|i: int| 0 <= i < media.len() ==> media[i] != ';',
    ensures
        media_type(media + seq![';'] + parameters) == media_type(media),
{
    let v = media + seq![';'] + parameters;
    lemma_first_position(v, ';', media.len() as int);
    lemma_first_position_absent(media, ';');
    assert(v.subrange(0, media.len() as int) =~= media);
    assert(media.subrange(0, media.len() as int) =~= media);
}

proof fn lemma_first_position(s: Seq<char>, c: char, k: int)
    requires
        0 <= k < s.len(),
        s[k] == c,
        forall|i: int| 0 <= i < k ==> s[i] != c,
    ensures
        char_position(s, c, 0) == k,
{
    lemma_position_from(s, c, 0, k);
}

proof fn lemma_position_from(s: Seq<char>, c: char, i: int, k: int)
    requires
        0 <= i <= k <= s.len(),
        k < s.len() ==> s[k] == c,
        forall|j: int| i <= j < k ==> s[j] != c,
    ensures
        char_position(s, c, i) == k,
    decreases k - i,
{
    if i < k {
        lemma_position_from(s, c, i + 1, k);
    }
}

proof fn lemma_first_position_absent(s: Seq<char>, c: char)
    requires
        forall|i: int| 0 <= i < s.len() ==> s[i] != c,
    ensures
        char_position(s, c, 0) == s.len(),
{
    lemma_position_from(s, c, 0, s.len() as int);
}

/// The three states partition every answer: not deployed is never a
/// defect, a wrong answer never waits, and only the promised media type
/// under a 2xx is correct.
pub proof fn lemma_three_states(url: Seq<char>, promised: Seq<char>, reply: FacadeReply)
    ensures
        (facade_verdict(url, promised, reply).state == FacadeState::Correct) <==> (reply matches FacadeReply::Answered { status, content_type }
            && 200 <= status <= 299 && served_type(content_type) == Some(promised)),
        (facade_verdict(url, promised, reply).state == FacadeState::Absent) <==> (reply is Unreachable || (reply matches FacadeReply::Answered { status, .. } && (status == 404 || status == 410))),
{
}

/// How a daily facade run ends. An origin that does not answer yet is
/// not served; one that answers wrongly is a defect. The two are not the
/// same thing, unless every facade is required to be served.
#[derive(Debug, Clone, Copy, PartialEq, Eq, Structural)]
pub enum FacadeRunEnd {
    /// Some origin answers and the answer is wrong: the run fails.
    Defects,
    /// Facades are absent and they were required to be served: the run fails.
    NotServed,
    /// Facades are absent, not required yet: the run waits, out loud.
    Waiting,
    /// Every facade is served correctly.
    AllCorrect,
}

/// The end of a facade run from the states it found.
pub open spec fn facade_run_end_of(states: Seq<FacadeState>, require_served: bool) -> FacadeRunEnd {
    if exists|i: int| 0 <= i < states.len() && states[i] == FacadeState::Defect {
        FacadeRunEnd::Defects
    } else if exists|i: int| 0 <= i < states.len() && states[i] == FacadeState::Absent {
        if require_served { FacadeRunEnd::NotServed } else { FacadeRunEnd::Waiting }
    } else {
        FacadeRunEnd::AllCorrect
    }
}

/// Decides how a facade run ends.
pub fn facade_run_end(states: &[FacadeState], require_served: bool) -> (r: FacadeRunEnd)
    ensures
        r == facade_run_end_of(states@, require_served),
{
    let mut defect = false;
    let mut absent = false;
    let mut i: usize = 0;
    while i < states.len()
        invariant
            i <= states@.len(),
            defect == exists|j: int| 0 <= j < i && states@[j] == FacadeState::Defect,
            absent == exists|j: int| 0 <= j < i && states@[j] == FacadeState::Absent,
        decreases states@.len() - i,
    {
        if states[i] == FacadeState::Defect {
            defect = true;
        }
        if states[i] == FacadeState::Absent {
            absent = true;
        }
        i = i + 1;
    }
    if defect {
        FacadeRunEnd::Defects
    } else if absent {
        if require_served { FacadeRunEnd::NotServed } else { FacadeRunEnd::Waiting }
    } else {
        FacadeRunEnd::AllCorrect
    }
}

/// What each expectation asks of an answer: `ok` passes exactly on a 2xx
/// status, `response` on any answer, `boolean` exactly on a JSON document
/// with a `boolean` member, whatever the status; a transport failure never
/// passes. The outcome keeps the status that came back and the latency.
pub proof fn lemma_expectations_decide(expect: Expect, reply: ProbeReply, latency_ms: u64)
    ensures
        probe_outcome(expect, reply, latency_ms).latency_ms == latency_ms,
        match reply {
            ProbeReply::TransportError(_) => !probe_outcome(expect, reply, latency_ms).passed
                && probe_outcome(expect, reply, latency_ms).status is None,
            ProbeReply::Answered { status, body } => {
                &&& probe_outcome(expect, reply, latency_ms).status == Some(status)
                &&& (probe_outcome(expect, reply, latency_ms).passed <==> match expect {
                    Expect::Success => 200 <= status && status < 300,
                    Expect::Response => true,
                    Expect::Boolean => body matches Some(BodyJson::Document { boolean: Some(_) }),
                })
            },
        },
{
}

/// A facade run looks at every facade it found: a defect anywhere fails
/// it; it ends all correct exactly when every facade is correct; and with
/// no defect, an absent facade anywhere makes it wait, or fail as not
/// served when serving is required.
pub proof fn lemma_run_end_sees_every_facade(states: Seq<FacadeState>, require_served: bool)
    ensures
        forall|i: int| 0 <= i < states.len() && #[trigger] states[i] == FacadeState::Defect
            ==> facade_run_end_of(states, require_served) == FacadeRunEnd::Defects,
        facade_run_end_of(states, require_served) == FacadeRunEnd::AllCorrect <==> forall|i: int|
            0 <= i < states.len() ==> #[trigger] states[i] == FacadeState::Correct,
        forall|i: int| 0 <= i < states.len() && #[trigger] states[i] == FacadeState::Absent
            ==> facade_run_end_of(states, require_served) == (if (forall|j: int| 0 <= j < states.len()
                ==> states[j] != FacadeState::Defect) {
                if require_served { FacadeRunEnd::NotServed } else { FacadeRunEnd::Waiting }
            } else {
                FacadeRunEnd::Defects
            }),
{
    if forall|i: int| 0 <= i < states.len() ==> #[trigger] states[i] == FacadeState::Correct {
        assert(!exists|i: int| 0 <= i < states.len() && states[i] == FacadeState::Defect);
        assert(!exists|i: int| 0 <= i < states.len() && states[i] == FacadeState::Absent);
    }
    if facade_run_end_of(states, require_served) == FacadeRunEnd::AllCorrect {
        assert forall|i: int| 0 <= i < states.len() implies #[trigger] states[i] == FacadeState::Correct by {
            assert(states[i] != FacadeState::Defect);
            assert(states[i] != FacadeState::Absent);
        }
    }
}

/// Each kind sends its own request to the declared URL: only `http-head`
/// sends a HEAD, only the MCP kinds POST and carry a body, a SPARQL probe
/// asks `ASK {}`, and each MCP kind names its era's call, `initialize` or
/// `server/discover`, in the `mcp-method` header and in the body.
pub proof fn lemma_each_kind_its_request(kind: ProbeKind, url: Seq<char>)
    ensures
        request_for(kind, url).url == url,
        (request_for(kind, url).method == HttpMethod::Head) <==> kind == ProbeKind::HttpHead,
        (request_for(kind, url).method == HttpMethod::Post) <==> (kind == ProbeKind::McpInitialize || kind
            == ProbeKind::McpDiscover),
        (request_for(kind, url).json_body is Some) <==> (kind == ProbeKind::McpInitialize || kind
            == ProbeKind::McpDiscover),
        kind == ProbeKind::SparqlAsk ==> request_for(kind, url).query == seq![("query"@, "ASK {}"@)],
        kind == ProbeKind::McpInitialize ==> request_for(kind, url).headers[2] == ("mcp-method"@, "initialize"@)
            && request_for(kind, url).json_body == Some(MCP_INITIALIZE_BODY@),
        kind == ProbeKind::McpDiscover ==> request_for(kind, url).headers[2] == ("mcp-method"@, "server/discover"@)
            && request_for(kind, url).json_body == Some(MCP_DISCOVER_BODY@),
{
}

} // verus!
