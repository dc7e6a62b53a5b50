//! Suggest Gateway API HTTPRoute manifests from Istio VirtualService resources.

use vstd::prelude::*;

use crate::text::{decimal, decimal_text, owned, str_eq, strings_view};

verus! {

/// A suggested manifest with the caveats of the translation.
#[derive(Debug, PartialEq, Eq)]
pub struct TranslationResult {
    pub manifest: String,
    pub warnings: Vec<String>,
}

/// The `uri` of a VirtualService match: each of `prefix`, `exact` and `regex` when it is a
/// text.
#[derive(Debug)]
pub struct VsUriMatch {
    pub prefix: Option<String>,
    pub exact: Option<String>,
    pub regex: Option<String>,
}

/// A destination of a VirtualService route: its `destination.host` when a text, its
/// `destination.port.number` and `weight` when unsigned integers.
#[derive(Debug)]
pub struct VsDestination {
    pub host: Option<String>,
    pub port_number: Option<u64>,
    pub weight: Option<u64>,
}

/// A VirtualService redirect: `scheme` and `uri` when texts, `redirectCode` when an
/// unsigned integer.
#[derive(Debug)]
pub struct VsRedirect {
    pub scheme: Option<String>,
    pub uri: Option<String>,
    pub redirect_code: Option<u64>,
}

/// One `spec.http` entry: its redirect when present, the `uri` of each entry of its `match`
/// list when that is a list, and its `route` list when that is a list.
#[derive(Debug)]
pub struct VsHttpRoute {
    pub redirect: Option<VsRedirect>,
    pub matches: Option<Vec<Option<VsUriMatch>>>,
    pub route: Option<Vec<VsDestination>>,
}

/// What the translation reads of a VirtualService `spec`.
#[derive(Debug)]
pub struct VsSpec {
    pub has_tcp: bool,
    pub has_tls: bool,
    /// `spec.hosts` when a list: each entry when a text.
    pub hosts: Option<Vec<Option<String>>>,
    /// `spec.http` when a list.
    pub http: Option<Vec<VsHttpRoute>>,
}

/// A path match of an HTTPRoute rule: `PathPrefix` or `Exact`, and its value.
#[derive(Debug)]
pub struct PathMatch {
    pub path_type: String,
    pub value: String,
}

/// A backend of an HTTPRoute rule.
#[derive(Debug)]
pub struct BackendRef {
    pub name: String,
    pub port: Option<u64>,
}

/// A redirect filter of an HTTPRoute rule.
#[derive(Debug)]
pub struct RequestRedirect {
    pub scheme: Option<String>,
    pub replace_full_path: Option<String>,
    pub status_code: u64,
}

/// One HTTPRoute rule: its matches, and either backends or a redirect.
#[derive(Debug)]
pub struct HttpRouteRule {
    pub matches: Vec<PathMatch>,
    pub backend_refs: Vec<BackendRef>,
    pub redirect: Option<RequestRedirect>,
}

/// A suggested HTTPRoute: name, namespace, source VirtualService, hostnames and rules.
#[derive(Debug)]
pub struct HttpRouteManifest {
    pub name: String,
    pub namespace: String,
    pub source_name: String,
    pub hostnames: Vec<String>,
    pub rules: Vec<HttpRouteRule>,
}

/// A suggested HTTPRoute with the caveats of the translation.
#[derive(Debug)]
pub struct HttpRouteTranslation {
    pub route: HttpRouteManifest,
    pub warnings: Vec<String>,
}

/// Text of a string as Rust's `Debug` writes it (quoted and escaped).
pub uninterp spec fn debug_quoted(s: Seq<char>) -> Seq<char>;

/// `Debug` text of a string.
///
/// Formats the string with `format!("{:?}", ..)`; the result is named `debug_quoted`, a
/// function of the string alone.
#[verifier::external_body]
fn debug_text(s: &str) -> (r: String)
    ensures
        r@ == debug_quoted(s@),
{
    format!("{:?}", s)
}

/// A character allowed in an HTTPRoute hostname.
pub open spec fn hostname_char(c: char) -> bool {
    ('a' <= c && c <= 'z') || ('A' <= c && c <= 'Z') || ('0' <= c && c <= '9') || c == '-' || c == '.' || c == '*'
}

/// Gateway API hostnames must match a DNS subdomain pattern; bare `*` is invalid.
pub open spec fn valid_hostname(h: Seq<char>) -> bool {
    h != "*"@ && h.len() > 0 && forall|i: int| 0 <= i < h.len() ==> hostname_char(h[i])
}

/// Gateway API hostnames must match a DNS subdomain pattern; bare `*` is invalid.
pub fn is_valid_httproute_hostname(host: &str) -> (r: bool)
    ensures
        r == valid_hostname(host@),
{
    if str_eq(host, "*") {
        return false;
    }
    let n = host.unicode_len();
    let mut i: usize = 0;
    while i < n
        invariant
            n == host@.len(),
            i <= n,
            forall|j: int| 0 <= j < i ==> hostname_char(host@[j]),
        decreases n - i,
    {
        let c = host.get_char(i);
        if !(('a' <= c && c <= 'z') || ('A' <= c && c <= 'Z') || ('0' <= c && c <= '9') || c == '-' || c == '.' || c
            == '*') {
            return false;
        }
        i += 1;
    }
    n > 0
}

/// Kubernetes Service name of an Istio destination host: the text before its first `.`.
pub open spec fn service_name(host: Seq<char>) -> Seq<char> {
    match crate::text::first_index_of(host, '.') {
        Some(i) => host.subrange(0, i),
        None => host,
    }
}

/// Map Istio destination hosts to Kubernetes Service names for backendRefs.
pub fn normalize_backend_service_name(host: &str) -> (r: String)
    ensures
        r@ == service_name(host@),
{
    match crate::text::find_char(host, '.') {
        Some(i) => crate::text::substring(host, 0, i),
        None => owned(host),
    }
}

// ---------------------------------------------------------------------------
// Values of the output
// ---------------------------------------------------------------------------

/// A path match as values.
pub struct PathMatchView {
    pub path_type: Seq<char>,
    pub value: Seq<char>,
}

/// A backend as values.
pub struct BackendView {
    pub name: Seq<char>,
    pub port: Option<u64>,
}

/// A redirect as values.
pub struct RedirectView {
    pub scheme: Option<Seq<char>>,
    pub replace_full_path: Option<Seq<char>>,
    pub status_code: u64,
}

/// A rule as values.
pub struct RuleView {
    pub matches: Seq<PathMatchView>,
    pub backend_refs: Seq<BackendView>,
    pub redirect: Option<RedirectView>,
}

pub open spec fn path_match_view(m: PathMatch) -> PathMatchView {
    PathMatchView { path_type: m.path_type@, value: m.value@ }
}

pub open spec fn matches_view(ms: Seq<PathMatch>) -> Seq<PathMatchView> {
    ms.map_values(|m: PathMatch| path_match_view(m))
}

pub open spec fn backend_view(b: BackendRef) -> BackendView {
    BackendView { name: b.name@, port: b.port }
}

pub open spec fn backends_view(bs: Seq<BackendRef>) -> Seq<BackendView> {
    bs.map_values(|b: BackendRef| backend_view(b))
}

pub open spec fn redirect_view(r: Option<RequestRedirect>) -> Option<RedirectView> {
    match r {
        Some(x) => Some(
            RedirectView {
                scheme: crate::model::opt_view(x.scheme),
                replace_full_path: crate::model::opt_view(x.replace_full_path),
                status_code: x.status_code,
            },
        ),
        None => None,
    }
}

pub open spec fn rule_view(r: HttpRouteRule) -> RuleView {
    RuleView { matches: matches_view(r.matches@), backend_refs: backends_view(r.backend_refs@), redirect: redirect_view(r.redirect) }
}

pub open spec fn rules_view(rs: Seq<HttpRouteRule>) -> Seq<RuleView> {
    rs.map_values(|r: HttpRouteRule| rule_view(r))
}

// ---------------------------------------------------------------------------
// The translation, stated
// ---------------------------------------------------------------------------

/// `spec.http[i]: ` prefix of the warnings about an entry.
pub open spec fn at_index(index: nat) -> Seq<char> {
    "spec.http["@ + decimal(index) + "]: "@
}

/// HTTPRoute hostnames of the text entries of `spec.hosts`, and a warning for each that the
/// API rejects.
pub open spec fn spec_hostnames(hosts: Seq<Option<String>>) -> (Seq<Seq<char>>, Seq<Seq<char>>)
    decreases hosts.len(),
{
    if hosts.len() == 0 {
        (Seq::empty(), Seq::empty())
    } else {
        let p = spec_hostnames(hosts.drop_last());
        match hosts.last() {
            Some(h) => if valid_hostname(h@) {
                (p.0.push(h@), p.1)
            } else {
                (
                    p.0,
                    p.1.push(
                        "spec.hosts entry "@ + debug_quoted(h@)
                            + " is not a valid HTTPRoute hostname; omitted (use empty hostnames for wildcard)"@,
                    ),
                )
            },
            None => p,
        }
    }
}

/// Every hostname a translation keeps is a valid HTTPRoute hostname; in particular the bare
/// wildcard is never kept.
pub proof fn law_kept_hostnames_are_valid(hosts: Seq<Option<String>>)
    ensures
        forall|k: int| 0 <= k < spec_hostnames(hosts).0.len() ==> valid_hostname(#[trigger] spec_hostnames(hosts).0[k]),
        !spec_hostnames(hosts).0.contains("*"@),
    decreases hosts.len(),
{
    if hosts.len() > 0 {
        law_kept_hostnames_are_valid(hosts.drop_last());
    }
    if spec_hostnames(hosts).0.contains("*"@) {
        let k = choose|k: int| 0 <= k < spec_hostnames(hosts).0.len() && spec_hostnames(hosts).0[k] == "*"@;
        assert(valid_hostname(spec_hostnames(hosts).0[k]));
    }
}

/// Path matches of the `uri` entries of a `match` list, and a warning for each regex.
pub open spec fn spec_uri_matches(ms: Seq<Option<VsUriMatch>>, index: nat) -> (Seq<PathMatchView>, Seq<Seq<char>>)
    decreases ms.len(),
{
    if ms.len() == 0 {
        (Seq::empty(), Seq::empty())
    } else {
        let p = spec_uri_matches(ms.drop_last(), index);
        match ms.last() {
            Some(u) => match (u.prefix, u.exact, u.regex) {
                (Some(x), _, _) => (p.0.push(PathMatchView { path_type: "PathPrefix"@, value: x@ }), p.1),
                (None, Some(x), _) => (p.0.push(PathMatchView { path_type: "Exact"@, value: x@ }), p.1),
                (None, None, Some(x)) => (
                    p.0,
                    p.1.push(at_index(index) + "URI regex "@ + debug_quoted(x@) + " not mapped; review manually"@),
                ),
                _ => p,
            },
            None => p,
        }
    }
}

/// `out` holds the path match of every `uri` entry of `ms`: a `prefix` becomes a
/// `PathPrefix` match on that prefix (whatever else the entry holds), and an `exact` without
/// a prefix becomes an `Exact` match on that exact path.
pub open spec fn covers_uri_entries(out: Seq<PathMatchView>, ms: Seq<Option<VsUriMatch>>) -> bool {
    &&& forall|k: int|
        0 <= k < ms.len() && (#[trigger] ms[k]) is Some && ms[k]->0.prefix is Some ==> out.contains(
            PathMatchView { path_type: "PathPrefix"@, value: ms[k]->0.prefix->0@ },
        )
    &&& forall|k: int|
        0 <= k < ms.len() && (#[trigger] ms[k]) is Some && ms[k]->0.prefix is None && ms[k]->0.exact is Some
            ==> out.contains(PathMatchView { path_type: "Exact"@, value: ms[k]->0.exact->0@ })
}

/// Every match of `out` comes from an entry of `ms`: a `PathPrefix` match from an entry
/// with that prefix, an `Exact` match from an entry without a prefix and with that exact
/// path; no match has any other type.
pub open spec fn from_uri_entries(out: Seq<PathMatchView>, ms: Seq<Option<VsUriMatch>>) -> bool {
    forall|j: int|
        0 <= j < out.len() ==> ((#[trigger] out[j]).path_type == "PathPrefix"@ && exists|k: int|
            0 <= k < ms.len() && (#[trigger] ms[k]) is Some && ms[k]->0.prefix is Some && ms[k]->0.prefix->0@
                == out[j].value) || (out[j].path_type == "Exact"@ && exists|k: int|
            0 <= k < ms.len() && (#[trigger] ms[k]) is Some && ms[k]->0.prefix is None && ms[k]->0.exact is Some
                && ms[k]->0.exact->0@ == out[j].value)
}

/// Path matches of a VirtualService `match` list: a `uri.prefix` translates to a
/// `PathPrefix` match and a `uri.exact` (without a prefix) to an `Exact` match on the same
/// text; every match translated comes from such an entry, with that type and text.
pub proof fn law_uri_match_types(ms: Seq<Option<VsUriMatch>>, index: nat)
    ensures
        covers_uri_entries(spec_uri_matches(ms, index).0, ms),
        from_uri_entries(spec_uri_matches(ms, index).0, ms),
    decreases ms.len(),
{
    if ms.len() > 0 {
        let q = ms.drop_last();
        law_uri_match_types(q, index);
        let p = spec_uri_matches(q, index).0;
        let out = spec_uri_matches(ms, index).0;
        let n = ms.len() - 1;
        assert(ms[n] == ms.last());
        assert forall|k: int| 0 <= k < q.len() implies q[k] == ms[k] by {}
        // every match already there stays
        assert(forall|x: PathMatchView| p.contains(x) ==> out.contains(x)) by {
            assert forall|x: PathMatchView| p.contains(x) implies out.contains(x) by {
                let j = choose|j: int| 0 <= j < p.len() && p[j] == x;
                if out.len() > p.len() {
                    assert(out[j] == p[j]);
                } else {
                    assert(out == p);
                }
            }
        }
        assert forall|k: int|
            0 <= k < ms.len() && (#[trigger] ms[k]) is Some && ms[k]->0.prefix is Some implies out.contains(
                PathMatchView { path_type: "PathPrefix"@, value: ms[k]->0.prefix->0@ },
            ) by {
            if k < n {
                assert(q[k] == ms[k]);
            } else {
                assert(out[p.len() as int] == PathMatchView { path_type: "PathPrefix"@, value: ms[k]->0.prefix->0@ });
            }
        }
        assert forall|k: int|
            0 <= k < ms.len() && (#[trigger] ms[k]) is Some && ms[k]->0.prefix is None && ms[k]->0.exact is Some
                implies out.contains(PathMatchView { path_type: "Exact"@, value: ms[k]->0.exact->0@ }) by {
            if k < n {
                assert(q[k] == ms[k]);
            } else {
                assert(out[p.len() as int] == PathMatchView { path_type: "Exact"@, value: ms[k]->0.exact->0@ });
            }
        }
        assert forall|j: int|
            0 <= j < out.len() implies ((#[trigger] out[j]).path_type == "PathPrefix"@ && exists|k: int|
                0 <= k < ms.len() && (#[trigger] ms[k]) is Some && ms[k]->0.prefix is Some && ms[k]->0.prefix->0@
                    == out[j].value) || (out[j].path_type == "Exact"@ && exists|k: int|
                0 <= k < ms.len() && (#[trigger] ms[k]) is Some && ms[k]->0.prefix is None && ms[k]->0.exact is Some
                    && ms[k]->0.exact->0@ == out[j].value) by {
            if j < p.len() {
                assert(out[j] == p[j]);
                if p[j].path_type == "PathPrefix"@ && exists|k: int|
                    0 <= k < q.len() && (#[trigger] q[k]) is Some && q[k]->0.prefix is Some && q[k]->0.prefix->0@
                        == p[j].value {
                    let k = choose|k: int|
                        0 <= k < q.len() && (#[trigger] q[k]) is Some && q[k]->0.prefix is Some && q[k]->0.prefix->0@
                            == p[j].value;
                    assert(ms[k] == q[k]);
                } else {
                    let k = choose|k: int|
                        0 <= k < q.len() && (#[trigger] q[k]) is Some && q[k]->0.prefix is None && q[k]->0.exact is Some
                            && q[k]->0.exact->0@ == p[j].value;
                    assert(ms[k] == q[k]);
                }
            } else {
                assert(ms[n] is Some);
            }
        }
    }
}

/// Warnings about one destination: a missing port, then a weight other than 100.
pub open spec fn destination_warnings(d: VsDestination, host: Seq<char>, index: nat) -> Seq<Seq<char>> {
    let w1: Seq<Seq<char>> = if d.port_number is None {
        seq![at_index(index) + "destination "@ + host + " has no port.number; omitting port"@]
    } else {
        Seq::empty()
    };
    let w2: Seq<Seq<char>> = match d.weight {
        Some(w) => if w != 100 {
            seq![at_index(index) + "weight "@ + decimal(w as nat) + " not represented on backendRef"@]
        } else {
            Seq::empty()
        },
        None => Seq::empty(),
    };
    w1 + w2
}

/// Backends of the destinations with a host, and the warnings about them.
pub open spec fn spec_backends(ds: Seq<VsDestination>, index: nat) -> (Seq<BackendView>, Seq<Seq<char>>)
    decreases ds.len(),
{
    if ds.len() == 0 {
        (Seq::empty(), Seq::empty())
    } else {
        let p = spec_backends(ds.drop_last(), index);
        let d = ds.last();
        match d.host {
            Some(h) => (
                p.0.push(BackendView { name: service_name(h@), port: d.port_number }),
                p.1 + destination_warnings(d, h@, index),
            ),
            None => p,
        }
    }
}

/// Matches of an entry: those of its `match` list, if it has one.
pub open spec fn entry_matches(r: VsHttpRoute, index: nat) -> (Seq<PathMatchView>, Seq<Seq<char>>) {
    match r.matches {
        Some(ms) => spec_uri_matches(ms@, index),
        None => (Seq::empty(), Seq::empty()),
    }
}

/// The rule of one `spec.http` entry, if any, and the warnings about it.
pub open spec fn spec_rule(r: VsHttpRoute, index: nat) -> (Option<RuleView>, Seq<Seq<char>>) {
    let m = entry_matches(r, index);
    match r.redirect {
        Some(red) => (
            Some(
                RuleView {
                    matches: m.0,
                    backend_refs: Seq::empty(),
                    redirect: Some(
                        RedirectView {
                            scheme: crate::model::opt_view(red.scheme),
                            replace_full_path: crate::model::opt_view(red.uri),
                            status_code: match red.redirect_code {
                                Some(c) => c,
                                None => 302,
                            },
                        },
                    ),
                },
            ),
            m.1 + if m.0.len() == 0 {
                seq![at_index(index) + "redirect rule has no URI matches; applies to all paths on host"@]
            } else {
                Seq::empty()
            },
        ),
        None => {
            let b = match r.route {
                Some(ds) => spec_backends(ds@, index),
                None => (Seq::empty(), Seq::empty()),
            };
            if b.0.len() == 0 {
                (None, m.1 + b.1 + seq![at_index(index) + "no destination host found; rule skipped"@])
            } else {
                (Some(RuleView { matches: m.0, backend_refs: b.0, redirect: None }), m.1 + b.1)
            }
        },
    }
}

/// The rules of the `spec.http` entries, and the warnings about them, entry by entry.
pub open spec fn spec_rules(http: Seq<VsHttpRoute>) -> (Seq<RuleView>, Seq<Seq<char>>)
    decreases http.len(),
{
    if http.len() == 0 {
        (Seq::empty(), Seq::empty())
    } else {
        let p = spec_rules(http.drop_last());
        let r = spec_rule(http.last(), (http.len() - 1) as nat);
        match r.0 {
            Some(rule) => (p.0.push(rule), p.1 + r.1),
            None => (p.0, p.1 + r.1),
        }
    }
}

/// Warning that parent references are left to the user.
pub open spec fn parent_refs_warning() -> Seq<char> {
    "parentRefs are omitted; attach this HTTPRoute to your Gateway or waypoint."@
}

/// Warning that no hostname was kept.
pub open spec fn empty_hostnames_warning() -> Seq<char> {
    "HTTPRoute spec.hostnames omitted (empty matches all hostnames, same as Istio wildcard)."@
}

/// Hostnames of a spec.
pub open spec fn spec_hosts(spec: VsSpec) -> (Seq<Seq<char>>, Seq<Seq<char>>) {
    match spec.hosts {
        Some(hs) => spec_hostnames(hs@),
        None => (Seq::empty(), Seq::empty()),
    }
}

/// Rules of a spec.
pub open spec fn spec_http(spec: VsSpec) -> (Seq<RuleView>, Seq<Seq<char>>) {
    match spec.http {
        Some(h) => spec_rules(h@),
        None => (Seq::empty(), Seq::empty()),
    }
}

/// Why a VirtualService is not translated, if it is not.
pub open spec fn translation_refusal(spec: Option<VsSpec>) -> Option<Seq<char>> {
    match spec {
        None => Some("VirtualService missing spec"@),
        Some(s) => if s.has_tcp || s.has_tls {
            Some("TCP/TLS VirtualService routes are not translated to HTTPRoute"@)
        } else if spec_http(s).0.len() == 0 {
            Some("No translatable spec.http routes found"@)
        } else {
            None
        },
    }
}

/// Warnings of a translation: parent references, rejected hostnames, no hostname kept,
/// then those of the rules.
pub open spec fn translation_warnings(s: VsSpec) -> Seq<Seq<char>> {
    let h = spec_hosts(s);
    seq![parent_refs_warning()] + h.1 + (if h.0.len() == 0 {
        seq![empty_hostnames_warning()]
    } else {
        Seq::empty()
    }) + spec_http(s).1
}

/// What a translation refuses and what one that succeeds holds: a VirtualService without
/// a spec is refused as such; one with TCP or TLS routes is refused; a translated one has
/// at least one rule, never keeps the bare wildcard host, and its first warning is the
/// one about parent references.
pub proof fn law_translation_shape(spec: Option<VsSpec>)
    ensures
        match spec {
            None => translation_refusal(spec) == Some("VirtualService missing spec"@),
            Some(s) => {
                &&& (s.has_tcp || s.has_tls ==> translation_refusal(spec) is Some)
                &&& (translation_refusal(spec) is None ==> {
                    &&& spec_http(s).0.len() > 0
                    &&& !spec_hosts(s).0.contains("*"@)
                    &&& translation_warnings(s).len() > 0
                    &&& translation_warnings(s)[0] == parent_refs_warning()
                    &&& crate::text::has_prefix(translation_warnings(s)[0], "parentRefs"@)
                })
            },
        },
{
    match spec {
        Some(s) => {
            match s.hosts {
                Some(hs) => law_kept_hostnames_are_valid(hs@),
                None => {},
            }
            let w = translation_warnings(s);
            let h = spec_hosts(s);
            assert(w[0] == parent_refs_warning());
            reveal_strlit("parentRefs are omitted; attach this HTTPRoute to your Gateway or waypoint.");
            reveal_strlit("parentRefs");
            assert(parent_refs_warning().subrange(0, 10) =~= "parentRefs"@);
        },
        None => {},
    }
}

// ---------------------------------------------------------------------------
// The translation, executed
// ---------------------------------------------------------------------------

fn push_text(v: &mut Vec<String>, s: String)
    ensures
        strings_view(final(v)@) == strings_view(old(v)@).push(s@),
{
    v.push(s);
    assert(strings_view(v@) =~= strings_view(old(v)@).push(s@));
}

fn append_texts(v: &mut Vec<String>, w: Vec<String>)
    ensures
        strings_view(final(v)@) == strings_view(old(v)@) + strings_view(w@),
{
    let mut i: usize = 0;
    while i < w.len()
        invariant
            i <= w@.len(),
            strings_view(v@) == strings_view(old(v)@) + strings_view(w@).take(i as int),
        decreases w@.len() - i,
    {
        push_text(v, w[i].clone());
        i += 1;
        assert(strings_view(w@).take(i as int) =~= strings_view(w@).take(i - 1).push(w@[i - 1]@));
    }
    assert(strings_view(w@).take(w@.len() as int) =~= strings_view(w@));
}

fn index_prefix(index: usize) -> (r: String)
    ensures
        r@ == at_index(index as nat),
{
    let mut s = owned("spec.http[");
    let d = decimal_text(index as u64);
    s.append(d.as_str());
    s.append("]: ");
    s
}

fn httproute_hostnames_from_spec(hosts: &Vec<Option<String>>) -> (r: (Vec<String>, Vec<String>))
    ensures
        (strings_view(r.0@), strings_view(r.1@)) == spec_hostnames(hosts@),
{
    let mut names: Vec<String> = Vec::new();
    let mut warnings: Vec<String> = Vec::new();
    let mut i: usize = 0;
    while i < hosts.len()
        invariant
            i <= hosts@.len(),
            (strings_view(names@), strings_view(warnings@)) == spec_hostnames(hosts@.take(i as int)),
        decreases hosts@.len() - i,
    {
        assert(hosts@.take(i + 1).drop_last() =~= hosts@.take(i as int));
        match &hosts[i] {
            Some(h) => {
                if is_valid_httproute_hostname(h.as_str()) {
                    push_text(&mut names, h.clone());
                } else {
                    let mut w = owned("spec.hosts entry ");
                    let q = debug_text(h.as_str());
                    w.append(q.as_str());
                    w.append(" is not a valid HTTPRoute hostname; omitted (use empty hostnames for wildcard)");
                    push_text(&mut warnings, w);
                }
            },
            None => {},
        }
        i += 1;
    }
    assert(hosts@.take(hosts@.len() as int) =~= hosts@);
    (names, warnings)
}

fn uri_matches(ms: &Vec<Option<VsUriMatch>>, index: usize) -> (r: (Vec<PathMatch>, Vec<String>))
    ensures
        (matches_view(r.0@), strings_view(r.1@)) == spec_uri_matches(ms@, index as nat),
{
    let mut out: Vec<PathMatch> = Vec::new();
    let mut warnings: Vec<String> = Vec::new();
    let mut i: usize = 0;
    while i < ms.len()
        invariant
            i <= ms@.len(),
            (matches_view(out@), strings_view(warnings@)) == spec_uri_matches(ms@.take(i as int), index as nat),
        decreases ms@.len() - i,
    {
        assert(ms@.take(i + 1).drop_last() =~= ms@.take(i as int));
        match &ms[i] {
            Some(u) => {
                match (&u.prefix, &u.exact, &u.regex) {
                    (Some(x), _, _) => {
                        let m = PathMatch { path_type: owned("PathPrefix"), value: x.clone() };
                        let ghost before = out@;
                        out.push(m);
                        assert(matches_view(out@) =~= matches_view(before).push(path_match_view(m)));
                    },
                    (None, Some(x), _) => {
                        let m = PathMatch { path_type: owned("Exact"), value: x.clone() };
                        let ghost before = out@;
                        out.push(m);
                        assert(matches_view(out@) =~= matches_view(before).push(path_match_view(m)));
                    },
                    (None, None, Some(x)) => {
                        let mut w = index_prefix(index);
                        w.append("URI regex ");
                        let q = debug_text(x.as_str());
                        w.append(q.as_str());
                        w.append(" not mapped; review manually");
                        push_text(&mut warnings, w);
                    },
                    _ => {},
                }
            },
            None => {},
        }
        i += 1;
    }
    assert(ms@.take(ms@.len() as int) =~= ms@);
    (out, warnings)
}

fn backend_refs_from_route(ds: &Vec<VsDestination>, index: usize) -> (r: (Vec<BackendRef>, Vec<String>))
    ensures
        (backends_view(r.0@), strings_view(r.1@)) == spec_backends(ds@, index as nat),
{
    let mut refs: Vec<BackendRef> = Vec::new();
    let mut warnings: Vec<String> = Vec::new();
    let mut i: usize = 0;
    while i < ds.len()
        invariant
            i <= ds@.len(),
            (backends_view(refs@), strings_view(warnings@)) == spec_backends(ds@.take(i as int), index as nat),
        decreases ds@.len() - i,
    {
        assert(ds@.take(i + 1).drop_last() =~= ds@.take(i as int));
        let d = &ds[i];
        match &d.host {
            Some(h) => {
                let ghost w0 = strings_view(warnings@);
                let b = BackendRef { name: normalize_backend_service_name(h.as_str()), port: d.port_number };
                let ghost before = refs@;
                refs.push(b);
                assert(backends_view(refs@) =~= backends_view(before).push(backend_view(b)));
                if d.port_number.is_none() {
                    let mut w = index_prefix(index);
                    w.append("destination ");
                    w.append(h.as_str());
                    w.append(" has no port.number; omitting port");
                    push_text(&mut warnings, w);
                }
                let ghost w1 = strings_view(warnings@);
                match d.weight {
                    Some(wt) => {
                        if wt != 100 {
                            let mut w = index_prefix(index);
                            w.append("weight ");
                            let t = decimal_text(wt);
                            w.append(t.as_str());
                            w.append(" not represented on backendRef");
                            push_text(&mut warnings, w);
                        }
                    },
                    None => {},
                }
                proof {
                    let dw = destination_warnings(*d, h@, index as nat);
                    assert(strings_view(warnings@) =~= w0 + dw);
                }
            },
            None => {},
        }
        i += 1;
    }
    assert(ds@.take(ds@.len() as int) =~= ds@);
    (refs, warnings)
}

fn translate_http_block(route: &VsHttpRoute, index: usize) -> (r: (Option<HttpRouteRule>, Vec<String>))
    ensures
        (match r.0 {
            Some(x) => Some(rule_view(x)),
            None => None,
        }, strings_view(r.1@)) == spec_rule(*route, index as nat),
{
    let (matches, mut warnings) = match &route.matches {
        Some(ms) => uri_matches(ms, index),
        None => {
            let a: Vec<PathMatch> = Vec::new();
            let b: Vec<String> = Vec::new();
            assert(matches_view(a@) =~= Seq::<PathMatchView>::empty());
            assert(strings_view(b@) =~= Seq::<Seq<char>>::empty());
            (a, b)
        },
    };
    match &route.redirect {
        Some(red) => {
            if matches.len() == 0 {
                let mut w = index_prefix(index);
                w.append("redirect rule has no URI matches; applies to all paths on host");
                push_text(&mut warnings, w);
            }
            let status_code = match red.redirect_code {
                Some(c) => c,
                None => 302,
            };
            let redirect = RequestRedirect {
                scheme: crate::model::clone_opt_string(&red.scheme),
                replace_full_path: crate::model::clone_opt_string(&red.uri),
                status_code,
            };
            let empty: Vec<BackendRef> = Vec::new();
            assert(backends_view(empty@) =~= Seq::<BackendView>::empty());
            let ghost wv = strings_view(warnings@);
            let rule = HttpRouteRule { matches, backend_refs: empty, redirect: Some(redirect) };
            assert(wv =~= spec_rule(*route, index as nat).1);
            (Some(rule), warnings)
        },
        None => {
            let (backends, bw) = match &route.route {
                Some(ds) => backend_refs_from_route(ds, index),
                None => {
                    let a: Vec<BackendRef> = Vec::new();
                    let b: Vec<String> = Vec::new();
                    assert(backends_view(a@) =~= Seq::<BackendView>::empty());
                    assert(strings_view(b@) =~= Seq::<Seq<char>>::empty());
                    (a, b)
                },
            };
            append_texts(&mut warnings, bw);
            if backends.len() == 0 {
                let mut w = index_prefix(index);
                w.append("no destination host found; rule skipped");
                push_text(&mut warnings, w);
                return (None, warnings);
            }
            (Some(HttpRouteRule { matches, backend_refs: backends, redirect: None }), warnings)
        },
    }
}

fn http_rules_from_spec(http: &Vec<VsHttpRoute>) -> (r: (Vec<HttpRouteRule>, Vec<String>))
    ensures
        (rules_view(r.0@), strings_view(r.1@)) == spec_rules(http@),
{
    let mut rules: Vec<HttpRouteRule> = Vec::new();
    let mut warnings: Vec<String> = Vec::new();
    let mut i: usize = 0;
    while i < http.len()
        invariant
            i <= http@.len(),
            (rules_view(rules@), strings_view(warnings@)) == spec_rules(http@.take(i as int)),
        decreases http@.len() - i,
    {
        assert(http@.take(i + 1).drop_last() =~= http@.take(i as int));
        assert(http@.take(i + 1).last() == http@[i as int]);
        let (rule, w) = translate_http_block(&http[i], i);
        match rule {
            Some(x) => {
                let ghost before = rules@;
                rules.push(x);
                assert(rules_view(rules@) =~= rules_view(before).push(rule_view(x)));
            },
            None => {},
        }
        append_texts(&mut warnings, w);
        i += 1;
    }
    assert(http@.take(http@.len() as int) =~= http@);
    (rules, warnings)
}

/// Translate a VirtualService `spec` into a suggested HTTPRoute named `{vs_name}-ambientor`
/// in the same namespace: its valid hostnames and one rule per translatable `spec.http`
/// entry, with the caveats as warnings; refused without a spec, with TCP or TLS routes, or
/// without any translatable rule.
pub fn virtual_service_to_httproute(namespace: &str, vs_name: &str, spec: Option<&VsSpec>) -> (r: Result<HttpRouteTranslation, String>)
    ensures
        match translation_refusal(match spec {
            Some(s) => Some(*s),
            None => None,
        }) {
            Some(m) => r matches Err(e) && e@ == m,
            None => r matches Ok(t) && {
                let s = *spec->0;
                &&& t.route.name@ == vs_name@ + "-ambientor"@
                &&& t.route.namespace@ == namespace@
                &&& t.route.source_name@ == vs_name@
                &&& strings_view(t.route.hostnames@) == spec_hosts(s).0
                &&& rules_view(t.route.rules@) == spec_http(s).0
                &&& strings_view(t.warnings@) == translation_warnings(s)
            },
        },
{
    let spec = match spec {
        Some(s) => s,
        None => return Err(owned("VirtualService missing spec")),
    };
    if spec.has_tcp || spec.has_tls {
        return Err(owned("TCP/TLS VirtualService routes are not translated to HTTPRoute"));
    }
    let mut warnings: Vec<String> = Vec::new();
    push_text(&mut warnings, owned("parentRefs are omitted; attach this HTTPRoute to your Gateway or waypoint."));
    let (hostnames, host_warnings) = match &spec.hosts {
        Some(hs) => httproute_hostnames_from_spec(hs),
        None => {
            let a: Vec<String> = Vec::new();
            let b: Vec<String> = Vec::new();
            assert(strings_view(a@) =~= Seq::<Seq<char>>::empty());
            assert(strings_view(b@) =~= Seq::<Seq<char>>::empty());
            (a, b)
        },
    };
    append_texts(&mut warnings, host_warnings);
    if hostnames.len() == 0 {
        push_text(
            &mut warnings,
            owned("HTTPRoute spec.hostnames omitted (empty matches all hostnames, same as Istio wildcard)."),
        );
    }
    let (rules, rule_warnings) = match &spec.http {
        Some(h) => http_rules_from_spec(h),
        None => {
            let a: Vec<HttpRouteRule> = Vec::new();
            let b: Vec<String> = Vec::new();
            assert(rules_view(a@) =~= Seq::<RuleView>::empty());
            assert(strings_view(b@) =~= Seq::<Seq<char>>::empty());
            (a, b)
        },
    };
    if rules.len() == 0 {
        return Err(owned("No translatable spec.http routes found"));
    }
    append_texts(&mut warnings, rule_warnings);
    let mut name = owned(vs_name);
    name.append("-ambientor");
    let ghost h = spec_hosts(*spec);
    assert(strings_view(warnings@) =~= translation_warnings(*spec));
    Ok(HttpRouteTranslation {
        route: HttpRouteManifest {
            name,
            namespace: owned(namespace),
            source_name: owned(vs_name),
            hostnames,
            rules,
        },
        warnings,
    })
}

} // verus!
