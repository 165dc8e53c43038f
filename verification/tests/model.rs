use oh_check::model::{plan_entry, plan_manifest, Expect, InterfaceDecl, ManifestError, ProbeDecl, ProbeKind};

fn some(s: &str) -> Option<String> {
    Some(s.to_string())
}

#[test]
fn names_parse_and_print() {
    for kind in [
        ProbeKind::SparqlAsk,
        ProbeKind::HttpGet,
        ProbeKind::HttpHead,
        ProbeKind::McpInitialize,
        ProbeKind::McpDiscover,
    ] {
        assert_eq!(ProbeKind::parse(kind.as_str()), Some(kind));
    }
    assert_eq!(ProbeKind::parse("mcp-discover"), Some(ProbeKind::McpDiscover));
    assert_eq!(ProbeKind::parse("HTTP-GET"), None);
    assert_eq!(Expect::parse("ok"), Some(Expect::Success));
    assert_eq!(Expect::Success.as_str(), "ok");
    assert_eq!(Expect::parse("boolean"), Some(Expect::Boolean));
    assert_eq!(Expect::parse("response").map(|e| e.as_str()), Some("response"));
    assert_eq!(Expect::parse("2xx"), None);
}

#[test]
fn plan_entry_reads_declared_probes_and_target_override() {
    let interfaces = vec![
        InterfaceDecl {
            interface_type: some("SparqlInterface"),
            endpoint: some("https://e.example/sparql"),
            probe: Some(ProbeDecl { kind: some("sparql-ask"), expect: some("boolean"), target: None }),
        },
        InterfaceDecl {
            interface_type: some("RestInterface"),
            endpoint: some("https://e.example/api"),
            probe: Some(ProbeDecl {
                kind: some("http-get"),
                expect: some("response"),
                target: some("https://e.example/api/health"),
            }),
        },
        InterfaceDecl {
            interface_type: some("DownloadInterface"),
            endpoint: some("https://e.example/dump"),
            probe: None,
        },
    ];
    let plan = plan_entry("testcase", &interfaces);
    assert_eq!(plan.len(), 3);
    let p0 = plan[0].probe.as_ref().expect("declared");
    assert_eq!(p0.kind, ProbeKind::SparqlAsk);
    assert_eq!(p0.url, "https://e.example/sparql", "endpoint is the default target");
    let p1 = plan[1].probe.as_ref().expect("declared");
    assert_eq!(p1.url, "https://e.example/api/health", "target overrides endpoint");
    assert!(plan[2].probe.is_none(), "no probe declared stays visible in the plan");
    assert_eq!(plan[2].interface_index, 2);
    assert_eq!(plan[2].entry, "testcase");
}

#[test]
fn missing_members_take_their_defaults_and_unknown_kinds_declare_nothing() {
    let interfaces = vec![
        InterfaceDecl { interface_type: None, endpoint: None, probe: Some(ProbeDecl { kind: some("http-head"), expect: some("ok"), target: None }) },
        InterfaceDecl { interface_type: some("X"), endpoint: some("https://x"), probe: Some(ProbeDecl { kind: some("ping"), expect: some("ok"), target: None }) },
        InterfaceDecl { interface_type: some("X"), endpoint: some("https://x"), probe: Some(ProbeDecl { kind: some("http-get"), expect: None, target: None }) },
    ];
    let plan = plan_entry("e", &interfaces);
    assert_eq!(plan[0].interface_type, "?");
    assert_eq!(plan[0].endpoint, "");
    assert_eq!(plan[0].probe.as_ref().map(|p| p.url.clone()), Some(String::new()));
    assert!(plan[1].probe.is_none());
    assert!(plan[2].probe.is_none());
}

const TESTCASE: &str = r#"{
    "@id": "https://ld.openhelvetia.swiss/registry/testcase",
    "interfaces": [
        {"@type": "SparqlInterface", "endpoint": "https://e.example/sparql",
         "probe": {"kind": "sparql-ask", "expect": "boolean"}},
        {"@type": "RestInterface", "endpoint": "https://e.example/api",
         "probe": {"kind": "http-get", "expect": "response",
                    "target": "https://e.example/api/health"}},
        {"@type": "DownloadInterface", "endpoint": "https://e.example/dump"}
    ]
}"#;

#[test]
fn plan_reads_declared_probes_and_target_override() {
    let plan = plan_manifest("testcase", TESTCASE).expect("plan");
    assert_eq!(plan.len(), 3);
    let p0 = plan[0].probe.as_ref().expect("declared");
    assert_eq!(p0.kind, ProbeKind::SparqlAsk);
    assert_eq!(p0.url, "https://e.example/sparql", "endpoint is the default target");
    let p1 = plan[1].probe.as_ref().expect("declared");
    assert_eq!(p1.url, "https://e.example/api/health", "target overrides endpoint");
    assert!(plan[2].probe.is_none(), "no probe declared stays visible in the plan");
}

#[test]
fn a_manifest_is_read_member_by_member() {
    let plan = plan_manifest("testcase", TESTCASE).expect("plan");
    assert_eq!(plan[0].entry, "testcase");
    assert_eq!(plan[1].interface_index, 1);
    assert_eq!(plan[1].interface_type, "RestInterface");
    assert_eq!(plan[1].endpoint, "https://e.example/api");
    assert_eq!(plan[1].probe.as_ref().map(|p| p.expect), Some(Expect::Response));
    assert_eq!(plan[2].interface_type, "DownloadInterface");
    // Members that are absent or hold no string take their defaults.
    let raw = r#"{"interfaces": [{"@type": 7, "probe": {"kind": "http-head", "expect": "ok"}}, {}]}"#;
    let plan = plan_manifest("e", raw).expect("plan");
    assert_eq!(plan.len(), 2);
    assert_eq!(plan[0].interface_type, "?");
    assert_eq!(plan[0].endpoint, "");
    assert_eq!(plan[0].probe.as_ref().map(|p| p.url.clone()), Some(String::new()));
    assert!(plan[1].probe.is_none());
    assert_eq!(plan_manifest("e", r#"{"interfaces": []}"#).map(|p| p.len()), Ok(0));
}

#[test]
fn a_manifest_without_interfaces_or_json_is_refused() {
    assert_eq!(plan_manifest("e", r#"{"@id": "x"}"#).map(|p| p.len()), Err(ManifestError::NoInterfaces));
    assert_eq!(plan_manifest("e", r#"{"interfaces": {}}"#).map(|p| p.len()), Err(ManifestError::NoInterfaces));
    assert_eq!(plan_manifest("e", "[1, 2]").map(|p| p.len()), Err(ManifestError::NoInterfaces));
    assert!(matches!(plan_manifest("e", "{not json"), Err(ManifestError::NotJson(_))));
    assert!(matches!(plan_manifest("e", ""), Err(ManifestError::NotJson(_))));
}
