//! Probe planning: every interface of a manifest with its declared
//! liveness probe. Interfaces without a probe stay in the plan: the
//! check gradient must say «never deep-checked», never silently skip.
use vstd::prelude::*;
use crate::text::str_equal;
use serde_json::Value;

verus! {

/// The declared probe kinds.
#[derive(Debug, Clone, Copy, PartialEq, Eq, Structural)]
pub enum ProbeKind {
    SparqlAsk,
    HttpGet,
    HttpHead,
    McpInitialize,
    /// The stateless era's entry call (`server/discover`). A separate
    /// kind rather than a flag on the one above, because it names which
    /// era the endpoint belongs to: against the wrong era either call
    /// produces an answer that proves nothing.
    McpDiscover,
}

/// The manifest name of each probe kind.
pub open spec fn kind_name(k: ProbeKind) -> Seq<char> {
    match k {
        ProbeKind::SparqlAsk => "sparql-ask"@,
        ProbeKind::HttpGet => "http-get"@,
        ProbeKind::HttpHead => "http-head"@,
        ProbeKind::McpInitialize => "mcp-initialize"@,
        ProbeKind::McpDiscover => "mcp-discover"@,
    }
}

/// The probe kind a manifest name declares.
pub open spec fn kind_named(s: Seq<char>) -> Option<ProbeKind> {
    if s == "sparql-ask"@ {
        Some(ProbeKind::SparqlAsk)
    } else if s == "http-get"@ {
        Some(ProbeKind::HttpGet)
    } else if s == "http-head"@ {
        Some(ProbeKind::HttpHead)
    } else if s == "mcp-initialize"@ {
        Some(ProbeKind::McpInitialize)
    } else if s == "mcp-discover"@ {
        Some(ProbeKind::McpDiscover)
    } else {
        None
    }
}

impl ProbeKind {
    pub fn parse(s: &str) -> (r: Option<Self>)
        ensures
            r == kind_named(s@),
    {
        if str_equal(s, "sparql-ask") {
            Some(ProbeKind::SparqlAsk)
        } else if str_equal(s, "http-get") {
            Some(ProbeKind::HttpGet)
        } else if str_equal(s, "http-head") {
            Some(ProbeKind::HttpHead)
        } else if str_equal(s, "mcp-initialize") {
            Some(ProbeKind::McpInitialize)
        } else if str_equal(s, "mcp-discover") {
            Some(ProbeKind::McpDiscover)
        } else {
            None
        }
    }

    pub fn as_str(&self) -> (r: &'static str)
        ensures
            r@ == kind_name(*self),
    {
        match self {
            ProbeKind::SparqlAsk => "sparql-ask",
            ProbeKind::HttpGet => "http-get",
            ProbeKind::HttpHead => "http-head",
            ProbeKind::McpInitialize => "mcp-initialize",
            ProbeKind::McpDiscover => "mcp-discover",
        }
    }
}

/// What proves liveness: `ok` = 2xx; `response` = any HTTP answer (bot
/// walls and GET-hostile endpoints included); `boolean` = a SPARQL result
/// document.
#[derive(Debug, Clone, Copy, PartialEq, Eq, Structural)]
pub enum Expect {
    /// A 2xx answer (manifest name `ok`).
    Success,
    Boolean,
    Response,
}

/// The manifest name of each expectation.
pub open spec fn expect_name(e: Expect) -> Seq<char> {
    match e {
        Expect::Success => "ok"@,
        Expect::Boolean => "boolean"@,
        Expect::Response => "response"@,
    }
}

/// The expectation a manifest name declares.
pub open spec fn expect_named(s: Seq<char>) -> Option<Expect> {
    if s == "ok"@ {
        Some(Expect::Success)
    } else if s == "boolean"@ {
        Some(Expect::Boolean)
    } else if s == "response"@ {
        Some(Expect::Response)
    } else {
        None
    }
}

impl Expect {
    pub fn parse(s: &str) -> (r: Option<Self>)
        ensures
            r == expect_named(s@),
    {
        if str_equal(s, "ok") {
            Some(Expect::Success)
        } else if str_equal(s, "boolean") {
            Some(Expect::Boolean)
        } else if str_equal(s, "response") {
            Some(Expect::Response)
        } else {
            None
        }
    }

    pub fn as_str(&self) -> (r: &'static str)
        ensures
            r@ == expect_name(*self),
    {
        match self {
            Expect::Success => "ok",
            Expect::Boolean => "boolean",
            Expect::Response => "response",
        }
    }
}

/// Names and kinds correspond one to one: a kind's name parses back to
/// the kind, and a name that parses is that kind's name.
pub proof fn lemma_kind_names_round_trip(k: ProbeKind, s: Seq<char>)
    ensures
        kind_named(kind_name(k)) == Some(k),
        kind_named(s) matches Some(j) ==> kind_name(j) == s,
{
    reveal_strlit("sparql-ask");
    reveal_strlit("http-get");
    reveal_strlit("http-head");
    reveal_strlit("mcp-initialize");
    reveal_strlit("mcp-discover");
    assert("sparql-ask"@.len() == 10);
    assert("http-get"@.len() == 8);
    assert("http-head"@.len() == 9);
    assert("mcp-initialize"@.len() == 14);
    assert("mcp-discover"@.len() == 12);
}

/// Names and expectations correspond one to one.
pub proof fn lemma_expect_names_round_trip(e: Expect, s: Seq<char>)
    ensures
        expect_named(expect_name(e)) == Some(e),
        expect_named(s) matches Some(j) ==> expect_name(j) == s,
{
    reveal_strlit("ok");
    reveal_strlit("boolean");
    reveal_strlit("response");
    assert("ok"@.len() == 2);
    assert("boolean"@.len() == 7);
    assert("response"@.len() == 8);
}

#[derive(Debug, Clone)]
pub struct DeclaredProbe {
    pub kind: ProbeKind,
    pub expect: Expect,
    /// Probe URL: `probe.target` when declared, else the endpoint.
    pub url: String,
}

/// One interface of one manifest in the plan.
#[derive(Debug, Clone)]
pub struct PlanItem {
    /// Manifest slug (file stem).
    pub entry: String,
    pub interface_index: usize,
    pub interface_type: String,
    pub endpoint: String,
    /// None = no probe declared: the gradient stays «never deep-checked».
    pub probe: Option<DeclaredProbe>,
}

/// The `probe` member of a manifest interface, as read: each part is
/// present when the member exists and holds a string.
#[derive(Debug, Clone)]
pub struct ProbeDecl {
    pub kind: Option<String>,
    pub expect: Option<String>,
    pub target: Option<String>,
}

/// One manifest interface, as read: `@type` and `endpoint` when they hold
/// strings; `probe` when the member exists.
#[derive(Debug, Clone)]
pub struct InterfaceDecl {
    pub interface_type: Option<String>,
    pub endpoint: Option<String>,
    pub probe: Option<ProbeDecl>,
}

/// A string member as characters, when present.
pub open spec fn text_view(s: Option<String>) -> Option<Seq<char>> {
    match s {
        Some(t) => Some(t@),
        None => None,
    }
}

impl View for ProbeDecl {
    /// `kind`, `expect`, `target`.
    type V = (Option<Seq<char>>, Option<Seq<char>>, Option<Seq<char>>);

    open spec fn view(&self) -> (Option<Seq<char>>, Option<Seq<char>>, Option<Seq<char>>) {
        (text_view(self.kind), text_view(self.expect), text_view(self.target))
    }
}

impl View for InterfaceDecl {
    /// `@type`, `endpoint`, `probe`.
    type V = (
        Option<Seq<char>>,
        Option<Seq<char>>,
        Option<(Option<Seq<char>>, Option<Seq<char>>, Option<Seq<char>>)>,
    );

    open spec fn view(&self) -> (
        Option<Seq<char>>,
        Option<Seq<char>>,
        Option<(Option<Seq<char>>, Option<Seq<char>>, Option<Seq<char>>)>,
    ) {
        (
            text_view(self.interface_type),
            text_view(self.endpoint),
            match self.probe {
                Some(p) => Some(p@),
                None => None,
            },
        )
    }
}

/// A declared probe over character sequences.
pub struct ProbeView {
    pub kind: ProbeKind,
    pub expect: Expect,
    pub url: Seq<char>,
}

/// A plan item over character sequences.
pub struct PlanItemView {
    pub entry: Seq<char>,
    pub interface_index: int,
    pub interface_type: Seq<char>,
    pub endpoint: Seq<char>,
    pub probe: Option<ProbeView>,
}

impl View for PlanItem {
    type V = PlanItemView;

    open spec fn view(&self) -> PlanItemView {
        PlanItemView {
            entry: self.entry@,
            interface_index: self.interface_index as int,
            interface_type: self.interface_type@,
            endpoint: self.endpoint@,
            probe: match self.probe {
                Some(p) => Some(ProbeView { kind: p.kind, expect: p.expect, url: p.url@ }),
                None => None,
            },
        }
    }
}

/// The text of a string member, or `default` when it is absent.
pub open spec fn text_or(s: Option<Seq<char>>, default: Seq<char>) -> Seq<char> {
    match s {
        Some(t) => t,
        None => default,
    }
}

/// The probe an interface declares: a known kind and a known expectation,
/// aimed at `target` when given, else at the endpoint. Anything short of
/// that declares no probe.
pub open spec fn declared_probe(
    decl: (
        Option<Seq<char>>,
        Option<Seq<char>>,
        Option<(Option<Seq<char>>, Option<Seq<char>>, Option<Seq<char>>)>,
    ),
) -> Option<ProbeView> {
    match decl.2 {
        Some(p) => match (p.0, p.1) {
            (Some(k), Some(e)) => match (kind_named(k), expect_named(e)) {
                (Some(kind), Some(expect)) => Some(
                    ProbeView { kind, expect, url: text_or(p.2, text_or(decl.1, ""@)) },
                ),
                _ => None,
            },
            _ => None,
        },
        None => None,
    }
}

/// The plan item for interface `index` of manifest `entry`: type `?` and
/// endpoint empty when absent.
pub open spec fn planned(
    entry: Seq<char>,
    index: int,
    decl: (
        Option<Seq<char>>,
        Option<Seq<char>>,
        Option<(Option<Seq<char>>, Option<Seq<char>>, Option<Seq<char>>)>,
    ),
) -> PlanItemView {
    PlanItemView {
        entry,
        interface_index: index,
        interface_type: text_or(decl.0, "?"@),
        endpoint: text_or(decl.1, ""@),
        probe: declared_probe(decl),
    }
}

fn text_or_default(s: &Option<String>, default: &str) -> (r: String)
    ensures
        r@ == text_or(text_view(*s), default@),
{
    match s {
        Some(t) => t.clone(),
        None => String::from_str(default),
    }
}

fn probe_of(decl: &InterfaceDecl, endpoint: &String) -> (r: Option<DeclaredProbe>)
    requires
        endpoint@ == text_or(decl@.1, ""@),
    ensures
        match r {
            Some(p) => declared_probe(decl@) == Some(ProbeView { kind: p.kind, expect: p.expect, url: p.url@ }),
            None => declared_probe(decl@) is None,
        },
{
    let p = match &decl.probe {
        Some(p) => p,
        None => return None,
    };
    let kind = match &p.kind {
        Some(k) => match ProbeKind::parse(k.as_str()) {
            Some(kind) => kind,
            None => return None,
        },
        None => return None,
    };
    let expect = match &p.expect {
        Some(e) => match Expect::parse(e.as_str()) {
            Some(expect) => expect,
            None => return None,
        },
        None => return None,
    };
    let url = match &p.target {
        Some(t) => t.clone(),
        None => endpoint.clone(),
    };
    Some(DeclaredProbe { kind, expect, url })
}

/// The plan items of one manifest: every interface, in order, with the
/// probe it declares.
pub fn plan_entry(entry: &str, interfaces: &[InterfaceDecl]) -> (items: Vec<PlanItem>)
    ensures
        items@.len() == interfaces@.len(),
        forall|i: int| 0 <= i < items@.len() ==> (#[trigger] items@[i])@ == planned(entry@, i, interfaces@[i]@),
{
    let mut items: Vec<PlanItem> = Vec::new();
    let mut index: usize = 0;
    while index < interfaces.len()
        invariant
            index <= interfaces@.len(),
            items@.len() == index,
            forall|i: int| 0 <= i < index ==> (#[trigger] items@[i])@ == planned(entry@, i, interfaces@[i]@),
        decreases interfaces@.len() - index,
    {
        let decl = &interfaces[index];
        let endpoint = text_or_default(&decl.endpoint, "");
        let probe = probe_of(decl, &endpoint);
        let item = PlanItem {
            entry: String::from_str(entry),
            interface_index: index,
            interface_type: text_or_default(&decl.interface_type, "?"),
            endpoint,
            probe,
        };
        assert(item@ == planned(entry@, index as int, interfaces@[index as int]@));
        items.push(item);
        index = index + 1;
    }
    items
}

/// The interfaces that a manifest's text declares: `None` when the text
/// is not JSON; `Some(None)` when the document has no `interfaces` array;
/// otherwise each element of that array, as `InterfaceDecl` views it.
pub uninterp spec fn manifest_decls(raw: Seq<char>) -> Option<Option<Seq<(Option<Seq<char>>, Option<Seq<char>>, Option<(Option<Seq<char>>, Option<Seq<char>>, Option<Seq<char>>)>)>>>;

/// `serde_json::from_str` into a `Value`, then `get("interfaces")` and
/// `as_array`, and for each element `get` with `as_str` on `@type`,
/// `endpoint` and the `kind`, `expect` and `target` of `probe`. The
/// contract claims only that the outcome is the named function of the
/// text (`serde_json` parses deterministically); the error text is
/// `serde_json`'s message and nothing is stated of it.
#[verifier::external_body]
fn read_manifest(raw: &str) -> (r: Result<Option<Vec<InterfaceDecl>>, String>)
    ensures
        match r {
            Err(_) => manifest_decls(raw@) is None,
            Ok(None) => manifest_decls(raw@) == Some(None::<Seq<(Option<Seq<char>>, Option<Seq<char>>, Option<(Option<Seq<char>>, Option<Seq<char>>, Option<Seq<char>>)>)>>),
            Ok(Some(v)) => manifest_decls(raw@) == Some(Some(v@.map_values(|d: InterfaceDecl| d@))),
        },
{
    let doc: Value = serde_json::from_str(raw).map_err(|e| e.to_string())?;
    let text = |v: &Value, k: &str| v.get(k).and_then(Value::as_str).map(str::to_string);
    Ok(doc.get("interfaces").and_then(Value::as_array).map(|list| {
        list.iter().map(|i| InterfaceDecl {
            interface_type: text(i, "@type"),
            endpoint: text(i, "endpoint"),
            probe: i.get("probe").map(|p| ProbeDecl {
                kind: text(p, "kind"),
                expect: text(p, "expect"),
                target: text(p, "target"),
            }),
        }).collect()
    }))
}

/// Why a manifest yields no plan.
#[derive(Debug, Clone, PartialEq, Eq)]
pub enum ManifestError {
    /// The text is not JSON; the parser's message.
    NotJson(String),
    /// The document has no `interfaces` array.
    NoInterfaces,
}

/// The plan items of the manifest `entry` whose text is `raw`: every
/// interface of its `interfaces` array, in order, with the probe it
/// declares.
pub fn plan_manifest(entry: &str, raw: &str) -> (r: Result<Vec<PlanItem>, ManifestError>)
    ensures
        match manifest_decls(raw@) {
            None => r matches Err(ManifestError::NotJson(_)),
            Some(None) => r matches Err(ManifestError::NoInterfaces),
            Some(Some(decls)) => r matches Ok(items) && items@.len() == decls.len() && forall|i: int|
                0 <= i < items@.len() ==> (#[trigger] items@[i])@ == planned(entry@, i, decls[i]),
        },
{
    match read_manifest(raw) {
        Err(message) => Err(ManifestError::NotJson(message)),
        Ok(None) => Err(ManifestError::NoInterfaces),
        Ok(Some(decls)) => {
            let list = decls.as_slice();
            assert(list@ == decls@);
            Ok(plan_entry(entry, list))
        },
    }
}

/// No interface leaves the plan: an interface without a usable probe
/// declaration stays in it, with no probe.
pub proof fn lemma_undeclared_stays_visible(
    entry: Seq<char>,
    index: int,
    decl: (
        Option<Seq<char>>,
        Option<Seq<char>>,
        Option<(Option<Seq<char>>, Option<Seq<char>>, Option<Seq<char>>)>,
    ),
)
    requires
        decl.2 is None,
    ensures
        planned(entry, index, decl).probe is None,
        planned(entry, index, decl).interface_index == index,
{
}

/// A planned probe is the one the manifest declares: its kind and its
/// expectation are the ones the manifest names, and it is aimed at the
/// declared target, else the endpoint, else the empty URL. A probe is
/// planned whenever the manifest names a known kind and a known
/// expectation.
pub proof fn lemma_planned_probe_is_declared(
    decl: (
        Option<Seq<char>>,
        Option<Seq<char>>,
        Option<(Option<Seq<char>>, Option<Seq<char>>, Option<Seq<char>>)>,
    ),
)
    ensures
        declared_probe(decl) matches Some(p) ==> {
            &&& decl.2 is Some
            &&& decl.2->Some_0.0 == Some(kind_name(p.kind))
            &&& decl.2->Some_0.1 == Some(expect_name(p.expect))
            &&& p.url == match decl.2->Some_0.2 {
                Some(target) => target,
                None => match decl.1 {
                    Some(endpoint) => endpoint,
                    None => Seq::<char>::empty(),
                },
            }
        },
        (decl.2 matches Some(d) && d.0 matches Some(k) && d.1 matches Some(e) && kind_named(k) is Some
            && expect_named(e) is Some) ==> declared_probe(decl) is Some,
{
    reveal_strlit("");
    if let Some(p) = declared_probe(decl) {
        let d = decl.2->Some_0;
        lemma_kind_names_round_trip(p.kind, d.0->Some_0);
        lemma_expect_names_round_trip(p.expect, d.1->Some_0);
    }
}

/// A plan item keeps its manifest and position, and shows the declared
/// type (else `?`) and endpoint (else empty).
pub proof fn lemma_plan_item_shows_the_declaration(
    entry: Seq<char>,
    index: int,
    decl: (
        Option<Seq<char>>,
        Option<Seq<char>>,
        Option<(Option<Seq<char>>, Option<Seq<char>>, Option<Seq<char>>)>,
    ),
)
    ensures
        planned(entry, index, decl).entry == entry,
        planned(entry, index, decl).interface_index == index,
        planned(entry, index, decl).interface_type == match decl.0 {
            Some(t) => t,
            None => seq!['?'],
        },
        planned(entry, index, decl).endpoint == match decl.1 {
            Some(e) => e,
            None => Seq::<char>::empty(),
        },
        planned(entry, index, decl).probe == declared_probe(decl),
{
    reveal_strlit("?");
    reveal_strlit("");
}

} // verus!
