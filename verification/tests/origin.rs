use oh_check::model::{DeclaredProbe, Expect, PlanItem, ProbeKind};
use oh_check::origin::{plan_at_origin, rewrite_origin, trim_trailing_slashes};

/// The path survives; the host does not.
#[test]
fn the_path_is_kept_and_the_origin_replaced() {
    assert_eq!(
        rewrite_origin(
            "https://mcp.openhelvetia.swiss/mcp",
            "http://127.0.0.1:8781"
        ),
        "http://127.0.0.1:8781/mcp"
    );
    assert_eq!(
        rewrite_origin("https://example.test", "http://127.0.0.1:1"),
        "http://127.0.0.1:1"
    );
}

/// Something that is not an http(s) URL is left alone rather than
/// mangled into a plausible-looking wrong one.
#[test]
fn an_unparsable_url_is_returned_unchanged() {
    assert_eq!(
        rewrite_origin("ftp://x/y", "http://127.0.0.1:1"),
        "ftp://x/y"
    );
}

#[test]
fn plain_http_and_queries_survive() {
    assert_eq!(
        rewrite_origin("http://a.example/sparql?query=x", "http://127.0.0.1:9"),
        "http://127.0.0.1:9/sparql?query=x"
    );
    assert_eq!(rewrite_origin("https://a.example/", "http://l"), "http://l/");
}

#[test]
fn trailing_slashes_of_an_origin_are_dropped() {
    assert_eq!(trim_trailing_slashes("http://127.0.0.1:8781//"), "http://127.0.0.1:8781");
    assert_eq!(trim_trailing_slashes("http://h"), "http://h");
    assert_eq!(trim_trailing_slashes("///"), "");
    assert_eq!(trim_trailing_slashes(""), "");
}

#[test]
fn a_plan_at_a_local_origin_keeps_everything_but_the_probe_origin() {
    let plan = vec![
        PlanItem {
            entry: "e".to_string(),
            interface_index: 0,
            interface_type: "McpInterface".to_string(),
            endpoint: "https://mcp.example/mcp".to_string(),
            probe: Some(DeclaredProbe {
                kind: ProbeKind::McpDiscover,
                expect: Expect::Success,
                url: "https://mcp.example/mcp?x=1".to_string(),
            }),
        },
        PlanItem {
            entry: "e".to_string(),
            interface_index: 1,
            interface_type: "DownloadInterface".to_string(),
            endpoint: "https://mcp.example/dump".to_string(),
            probe: None,
        },
    ];
    let local = plan_at_origin(&plan, "http://127.0.0.1:8781/");
    assert_eq!(local.len(), 2);
    let probe = local[0].probe.as_ref().expect("declared");
    assert_eq!(probe.url, "http://127.0.0.1:8781/mcp?x=1");
    assert_eq!(probe.kind, ProbeKind::McpDiscover);
    assert_eq!(local[0].endpoint, "https://mcp.example/mcp");
    assert!(local[1].probe.is_none());
    assert_eq!(local[1].interface_index, 1);
}
