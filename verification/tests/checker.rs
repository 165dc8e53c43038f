use oh_check::gradient::{self, Gradient, Record};
use oh_check::model::{DeclaredProbe, Expect, ProbeKind};
use oh_check::probes::{
    self, facade_run_end, BodyJson, FacadeReply, FacadeRunEnd, FacadeState, HttpMethod, ProbeReply,
};

fn record(entry: &str, index: usize, passed: bool, at: &str) -> Record {
    Record {
        entry: entry.into(),
        interface_index: index,
        kind: "http-get".into(),
        url: "http://127.0.0.1/".into(),
        passed,
        status: Some(if passed { 200 } else { 500 }),
        latency_ms: 1,
        detail: String::new(),
        measured_at: at.into(),
    }
}

#[test]
fn gradient_distinguishes_never_checked_from_checked() {
    let history = vec![record("a", 0, true, "2026-08-20T10:00:00Z")];
    assert!(matches!(
        gradient::for_interface(&history, "a", 0),
        Gradient::Passed { .. }
    ));
    // Same entry, other interface: never conflated with the passed one.
    assert_eq!(
        gradient::for_interface(&history, "a", 1),
        Gradient::NeverChecked
    );
    assert_eq!(
        gradient::for_interface(&history, "b", 0),
        Gradient::NeverChecked
    );
}

#[test]
fn latest_record_wins() {
    let history = vec![
        record("a", 0, false, "2026-08-20T10:00:00Z"),
        record("a", 0, true, "2026-08-20T11:00:00Z"),
    ];
    assert!(matches!(
        gradient::for_interface(&history, "a", 0),
        Gradient::Passed { .. }
    ));
}

#[test]
fn the_latest_record_carries_its_time_and_labels_read_plainly() {
    let history = vec![
        record("a", 0, true, "2026-08-20T10:00:00Z"),
        record("b", 0, true, "2026-08-20T10:30:00Z"),
        record("a", 0, false, "2026-08-20T11:00:00Z"),
    ];
    let g = gradient::for_interface(&history, "a", 0);
    assert_eq!(g, Gradient::Failed { measured_at: "2026-08-20T11:00:00Z".into() });
    assert_eq!(g.label(), "failed");
    assert_eq!(Gradient::NeverChecked.label(), "never checked");
    assert_eq!(gradient::for_interface(&history, "b", 0).label(), "passed");
}

#[test]
fn the_facade_set_covers_the_runbook_plan_and_leads_with_the_pointer() {
    let set = probes::facade_set();
    assert_eq!(
        set[0].path, "/.well-known/openhelvetia.json",
        "the well-known root is the pointer everything else hangs from"
    );
    for path in [
        "/.well-known/security.txt",
        "/directory.json",
        "/llms.txt",
        "/sitemap.xml",
    ] {
        assert!(
            set.iter().any(|item| item.path == path),
            "{path} is in the plan and must be probed"
        );
    }
}

fn probe(kind: ProbeKind, expect: Expect, url: &str) -> DeclaredProbe {
    DeclaredProbe { kind, expect, url: url.to_string() }
}

fn answered(status: u16) -> ProbeReply {
    ProbeReply::Answered { status, body: None }
}

#[test]
fn http_head_expect_ok_passes_on_2xx() {
    let p = probe(ProbeKind::HttpHead, Expect::Success, "http://x/");
    let outcome = probes::execute(&p, &answered(200), 7);
    assert!(outcome.passed, "{}", outcome.detail);
    assert_eq!(outcome.status, Some(200));
    assert_eq!(outcome.latency_ms, 7);
    assert_eq!(outcome.detail, "status 200 (expect 2xx)");
}

#[test]
fn http_head_expect_ok_fails_on_5xx() {
    let p = probe(ProbeKind::HttpHead, Expect::Success, "http://x/");
    let outcome = probes::execute(&p, &answered(500), 7);
    assert!(!outcome.passed);
    assert_eq!(outcome.status, Some(500));
}

#[test]
fn expect_response_passes_on_any_answer_even_4xx() {
    let p = probe(ProbeKind::HttpGet, Expect::Response, "http://x/");
    let outcome = probes::execute(&p, &answered(403), 1);
    assert!(outcome.passed);
    assert_eq!(outcome.detail, "answered 403");
}

#[test]
fn transport_failure_is_a_failed_outcome_never_a_panic() {
    let p = probe(ProbeKind::HttpGet, Expect::Response, "http://x/");
    let outcome = probes::execute(&p, &ProbeReply::TransportError("connection refused".into()), 2);
    assert!(!outcome.passed);
    assert_eq!(outcome.status, None);
    assert!(outcome.detail.contains("transport error"));
}

#[test]
fn sparql_ask_expect_boolean_passes_on_result_document() {
    let p = probe(ProbeKind::SparqlAsk, Expect::Boolean, "http://x/sparql");
    let outcome = probes::execute(
        &p,
        &ProbeReply::Answered { status: 200, body: Some(BodyJson::Document { boolean: Some("true".into()) }) },
        1,
    );
    assert!(outcome.passed, "{}", outcome.detail);
    assert!(outcome.detail.contains("boolean=true"));
}

#[test]
fn sparql_ask_expect_boolean_fails_on_html() {
    let p = probe(ProbeKind::SparqlAsk, Expect::Boolean, "http://x/sparql");
    let outcome = probes::execute(
        &p,
        &ProbeReply::Answered { status: 200, body: Some(BodyJson::Unreadable("expected value".into())) },
        1,
    );
    assert!(!outcome.passed);
    assert_eq!(outcome.detail, "no SPARQL result document: expected value");
}

#[test]
fn sparql_boolean_needs_the_boolean_field() {
    let p = probe(ProbeKind::SparqlAsk, Expect::Boolean, "http://x/sparql");
    let without = probes::execute(
        &p,
        &ProbeReply::Answered { status: 200, body: Some(BodyJson::Document { boolean: None }) },
        1,
    );
    assert!(!without.passed);
    assert_eq!(without.detail, "JSON without a SPARQL boolean field");
}

#[test]
fn mcp_initialize_posts_and_any_answer_passes() {
    let p = probe(ProbeKind::McpInitialize, Expect::Response, "http://x/mcp");
    let request = probes::probe_request(&p);
    assert_eq!(request.method, HttpMethod::Post);
    assert!(request.json_body.is_some());
    let outcome = probes::execute(&p, &answered(200), 1);
    assert!(outcome.passed, "{}", outcome.detail);
}

#[test]
fn mcp_discover_expect_ok_passes_on_a_stateless_answer() {
    // A conformant stateless-era endpoint answers 2xx; under `expect: ok`
    // that is evidence about MCP, not merely about the transport.
    let p = probe(ProbeKind::McpDiscover, Expect::Success, "http://x/mcp");
    let outcome = probes::execute(&p, &answered(200), 1);
    assert!(outcome.passed, "{}", outcome.detail);
    assert_eq!(outcome.status, Some(200));
}

#[test]
fn requests_per_kind() {
    let sparql = probes::probe_request(&probe(ProbeKind::SparqlAsk, Expect::Boolean, "http://x/s"));
    assert_eq!(sparql.method, HttpMethod::Get);
    assert_eq!(sparql.query, vec![("query".to_string(), "ASK {}".to_string())]);
    assert_eq!(sparql.headers, vec![("accept".to_string(), "application/sparql-results+json".to_string())]);
    let head = probes::probe_request(&probe(ProbeKind::HttpHead, Expect::Success, "http://x/h"));
    assert_eq!(head.method, HttpMethod::Head);
    assert_eq!(head.url, "http://x/h");
    assert!(head.json_body.is_none());
}

#[test]
fn mcp_discover_sends_the_complete_per_request_envelope() {
    let request = probes::probe_request(&probe(ProbeKind::McpDiscover, Expect::Success, "http://x/mcp"));
    assert_eq!(request.method, HttpMethod::Post);
    let header = |name: &str| {
        request.headers.iter().find(|(n, _)| n == name).map(|(_, v)| v.clone())
    };
    assert_eq!(header("accept").as_deref(), Some("application/json, text/event-stream"));
    assert_eq!(header("mcp-protocol-version").as_deref(), Some("2026-07-28"));
    assert_eq!(header("mcp-method").as_deref(), Some("server/discover"));
    let body: serde_json::Value = serde_json::from_str(request.json_body.as_deref().expect("a body")).expect("JSON");
    assert_eq!(body["method"], "server/discover");
    assert_eq!(body["jsonrpc"], "2.0");
    assert_eq!(body["id"], 1);
    let meta = &body["params"]["_meta"];
    assert_eq!(meta["io.modelcontextprotocol/protocolVersion"], "2026-07-28");
    assert!(meta.get("io.modelcontextprotocol/clientCapabilities").is_some());
    assert!(body["params"].get("clientInfo").is_none());
    assert_eq!(body["params"]["protocolVersion"], "2026-07-28");
}

#[test]
fn the_two_mcp_kinds_send_the_same_envelope_and_differ_only_in_the_call() {
    let discover = probes::probe_request(&probe(ProbeKind::McpDiscover, Expect::Response, "http://x/"));
    let initialize = probes::probe_request(&probe(ProbeKind::McpInitialize, Expect::Response, "http://x/"));
    assert_eq!(discover.headers[..2], initialize.headers[..2]);
    assert_eq!(initialize.headers[2].1, "initialize");
    let body: serde_json::Value = serde_json::from_str(initialize.json_body.as_deref().unwrap()).unwrap();
    assert_eq!(body["method"], "initialize");
    assert_eq!(body["params"]["clientInfo"]["name"], "oh-check");
    assert_eq!(body["params"]["clientInfo"]["version"], "0.1.0");
    assert!(body["params"].get("capabilities").is_some());
    // What serde_json writes for the same document.
    assert_eq!(serde_json::to_string(&body).unwrap(), initialize.json_body.unwrap());
    let body: serde_json::Value = serde_json::from_str(discover.json_body.as_deref().unwrap()).unwrap();
    assert_eq!(serde_json::to_string(&body).unwrap(), discover.json_body.unwrap());
}

fn item(content_type: &'static str) -> probes::Facade {
    probes::Facade { path: "/llms.txt", content_type }
}

#[test]
fn a_facade_served_correctly_is_correct() {
    let outcome = probes::facade(
        "http://127.0.0.1:1",
        &item("text/plain"),
        &FacadeReply::Answered { status: 200, content_type: Some("text/plain; charset=utf-8".into()) },
    );
    assert_eq!(outcome.state, FacadeState::Correct);
    // The charset parameter is not part of the comparison.
    assert_eq!(outcome.content_type.as_deref(), Some("text/plain"));
}

#[test]
fn media_types_compare_trimmed_and_lowered_below_a_slashed_origin() {
    let outcome = probes::facade(
        "http://127.0.0.1:1//",
        &item("text/plain"),
        &FacadeReply::Answered { status: 200, content_type: Some("Text/Plain ; charset=utf-8".into()) },
    );
    assert_eq!(outcome.state, FacadeState::Correct);
    assert_eq!(outcome.url, "http://127.0.0.1:1/llms.txt");
    assert_eq!(outcome.content_type.as_deref(), Some("text/plain"));
    assert_eq!(outcome.detail, "200, text/plain");
}

#[test]
fn a_facade_run_fails_on_defects_and_waits_on_absence() {
    assert_eq!(facade_run_end(&[FacadeState::Correct, FacadeState::Defect, FacadeState::Absent], false), FacadeRunEnd::Defects);
    assert_eq!(facade_run_end(&[FacadeState::Correct, FacadeState::Absent], false), FacadeRunEnd::Waiting);
    assert_eq!(facade_run_end(&[FacadeState::Correct, FacadeState::Absent], true), FacadeRunEnd::NotServed);
    assert_eq!(facade_run_end(&[FacadeState::Correct], true), FacadeRunEnd::AllCorrect);
}

#[test]
fn a_facade_under_the_wrong_content_type_is_a_defect_not_a_wait() {
    let outcome = probes::facade(
        "http://o",
        &item("text/plain"),
        &FacadeReply::Answered { status: 200, content_type: Some("text/html".into()) },
    );
    assert_eq!(outcome.state, FacadeState::Defect);
    assert!(outcome.detail.contains("promises text/plain"), "{}", outcome.detail);
    let untyped = probes::facade("http://o", &item("text/plain"), &FacadeReply::Answered { status: 204, content_type: None });
    assert_eq!(untyped.state, FacadeState::Defect);
    assert!(untyped.detail.starts_with("served as <no content-type>"));
}

#[test]
fn a_facade_that_is_not_deployed_yet_is_absent_not_a_defect() {
    for status in [404, 410] {
        let outcome = probes::facade("http://o", &item("application/json"), &FacadeReply::Answered { status, content_type: None });
        assert_eq!(outcome.state, FacadeState::Absent);
    }
    let gone = probes::facade("http://o", &item("application/json"), &FacadeReply::Unreachable("dns".into()));
    assert_eq!(gone.state, FacadeState::Absent);
    assert_eq!(gone.detail, "not reachable: dns");
}

#[test]
fn a_broken_origin_is_a_defect_even_though_nothing_was_deployed() {
    let outcome = probes::facade("http://o", &item("application/json"), &FacadeReply::Answered { status: 503, content_type: Some("text/html".into()) });
    assert_eq!(outcome.state, FacadeState::Defect);
    assert_eq!(outcome.detail, "status 503 (expect 2xx)");
}
