//! Local-instance probing: replacing the origin of a probe URL so that a
//! manifest declaring a public endpoint can be probed against a local
//! one without editing the manifest. The record keeps the URL actually
//! probed, so such a result says so wherever it is shown.
use vstd::prelude::*;
use crate::model::{DeclaredProbe, PlanItem, PlanItemView, ProbeView};
use crate::text::{char_position, chars_of, chars_equal, chars_range, find_char, push_chars, push_str, string_of};

verus! {

/// Whether `s` begins with `prefix`.
pub open spec fn starts_with(s: Seq<char>, prefix: Seq<char>) -> bool {
    prefix.len() <= s.len() && s.subrange(0, prefix.len() as int) == prefix
}

/// What follows the `https://` or `http://` of `url`, if it has one.
pub open spec fn after_scheme(url: Seq<char>) -> Option<Seq<char>> {
    if starts_with(url, "https://"@) {
        Some(url.subrange("https://"@.len() as int, url.len() as int))
    } else if starts_with(url, "http://"@) {
        Some(url.subrange("http://"@.len() as int, url.len() as int))
    } else {
        None
    }
}

/// `url` with its scheme and authority replaced by `origin`, path and
/// query kept; a URL that is not http(s) is left as it is.
pub open spec fn origin_rewritten(url: Seq<char>, origin: Seq<char>) -> Seq<char> {
    match after_scheme(url) {
        None => url,
        Some(rest) => {
            let k = char_position(rest, '/', 0);
            if k == rest.len() {
                origin
            } else {
                origin + seq!['/'] + rest.subrange(k + 1, rest.len() as int)
            }
        },
    }
}

/// Whether `v` begins with the characters of `prefix`.
fn has_prefix(v: &Vec<char>, prefix: &str) -> (r: bool)
    ensures
        r == starts_with(v@, prefix@),
{
    let p = chars_of(prefix);
    if p.len() > v.len() {
        return false;
    }
    let head = chars_range(v, 0, p.len());
    chars_equal(&head, &p)
}

/// Replaces the scheme+authority of `url` with `origin`, keeping path and
/// query. Deliberately dumb: it does not parse, it splits at the first
/// slash after the scheme. A URL it cannot understand is returned
/// unchanged rather than mangled: the probe then targets what the
/// manifest declared, which is the safe direction to fail in.
pub fn rewrite_origin(url: &str, origin: &str) -> (r: String)
    ensures
        r@ == origin_rewritten(url@, origin@),
{
    let u = chars_of(url);
    let start = if has_prefix(&u, "https://") {
        chars_of("https://").len()
    } else if has_prefix(&u, "http://") {
        chars_of("http://").len()
    } else {
        return string_of(&u);
    };
    let rest = chars_range(&u, start, u.len());
    let k = find_char(&rest, '/', 0);
    let mut out: Vec<char> = Vec::new();
    push_str(&mut out, origin);
    if k < rest.len() {
        out.push('/');
        push_chars(&mut out, &chars_range(&rest, k + 1, rest.len()));
    }
    string_of(&out)
}

/// The path survives and the host does not: a URL of the form
/// `https://authority/path` becomes `origin/path`.
pub proof fn lemma_path_kept(authority: Seq<char>, path: Seq<char>, origin: Seq<char>)
    requires
        forall|i: int| 0 <= i < authority.len() ==> authority[i] != '/',
    ensures
        origin_rewritten("https://"@ + authority + seq!['/'] + path, origin) == origin + seq!['/'] + path,
{
    let url = "https://"@ + authority + seq!['/'] + path;
    let n = "https://"@.len() as int;
    assert(url.subrange(0, n) =~= "https://"@);
    let rest = url.subrange(n, url.len() as int);
    assert(rest =~= authority + seq!['/'] + path);
    lemma_position_after(rest, authority.len() as int);
    assert(rest.subrange(authority.len() as int + 1, rest.len() as int) =~= path);
}

/// A position of `c` preceded only by other characters is its first one.
proof fn lemma_position_after(s: Seq<char>, k: int)
    requires
        0 <= k < s.len(),
        s[k] == '/',
        forall|i: int| 0 <= i < k ==> s[i] != '/',
    ensures
        char_position(s, '/', 0) == k,
{
    lemma_position_from(s, 0, k);
}

proof fn lemma_position_from(s: Seq<char>, i: int, k: int)
    requires
        0 <= i <= k < s.len(),
        s[k] == '/',
        forall|j: int| i <= j < k ==> s[j] != '/',
    ensures
        char_position(s, '/', i) == k,
    decreases k - i,
{
    if i < k {
        lemma_position_from(s, i + 1, k);
    }
}

/// Something that is not an http(s) URL is left alone rather than
/// mangled into a plausible-looking wrong one.
pub proof fn lemma_non_http_unchanged(url: Seq<char>, origin: Seq<char>)
    requires
        !starts_with(url, "https://"@),
        !starts_with(url, "http://"@),
    ensures
        origin_rewritten(url, origin) == url,
{
}

/// `s` without the slashes it ends with.
pub open spec fn without_trailing_slashes(s: Seq<char>) -> Seq<char>
    decreases s.len(),
{
    if s.len() > 0 && s.last() == '/' {
        without_trailing_slashes(s.drop_last())
    } else {
        s
    }
}

/// `s` without the slashes it ends with (`trim_end_matches('/')`).
pub fn trim_trailing_slashes(s: &str) -> (r: String)
    ensures
        r@ == without_trailing_slashes(s@),
{
    let v = chars_of(s);
    let mut end = v.len();
    assert(v@.subrange(0, end as int) =~= v@);
    while end > 0 && v[end - 1] == '/'
        invariant
            end <= v@.len(),
            without_trailing_slashes(v@.subrange(0, end as int)) == without_trailing_slashes(v@),
        decreases end,
    {
        assert(v@.subrange(0, end as int).drop_last() =~= v@.subrange(0, end - 1));
        end = end - 1;
    }
    string_of(&chars_range(&v, 0, end))
}

/// A plan item with its probe, if any, aimed at `origin`.
pub open spec fn item_at_origin(item: PlanItemView, origin: Seq<char>) -> PlanItemView {
    PlanItemView {
        probe: match item.probe {
            Some(p) => Some(ProbeView { kind: p.kind, expect: p.expect, url: origin_rewritten(p.url, origin) }),
            None => None,
        },
        ..item
    }
}

/// The plan with every declared probe aimed at the local instance
/// `origin` (trailing slashes dropped), paths and queries kept.
pub fn plan_at_origin(plan: &[PlanItem], origin: &str) -> (r: Vec<PlanItem>)
    ensures
        r@.len() == plan@.len(),
        forall|i: int| 0 <= i < r@.len() ==> (#[trigger] r@[i])@ == item_at_origin(
            plan@[i]@,
            without_trailing_slashes(origin@),
        ),
{
    let base = trim_trailing_slashes(origin);
    let mut out: Vec<PlanItem> = Vec::new();
    let mut i: usize = 0;
    while i < plan.len()
        invariant
            i <= plan@.len(),
            base@ == without_trailing_slashes(origin@),
            out@.len() == i,
            forall|j: int| 0 <= j < i ==> (#[trigger] out@[j])@ == item_at_origin(plan@[j]@, base@),
        decreases plan@.len() - i,
    {
        let item = &plan[i];
        let probe = match &item.probe {
            Some(p) => Some(DeclaredProbe {
                kind: p.kind,
                expect: p.expect,
                url: rewrite_origin(p.url.as_str(), base.as_str()),
            }),
            None => None,
        };
        let moved = PlanItem {
            entry: item.entry.clone(),
            interface_index: item.interface_index,
            interface_type: item.interface_type.clone(),
            endpoint: item.endpoint.clone(),
            probe,
        };
        assert(moved@ == item_at_origin(plan@[i as int]@, base@));
        out.push(moved);
        i = i + 1;
    }
    out
}

} // verus!
