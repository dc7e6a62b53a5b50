//! The document of a suggested HTTPRoute: a tree of mappings, lists, texts and numbers,
//! laid out as the manifest is written (keys of each mapping in ascending order, optional
//! entries left out when they have nothing to say).

use vstd::prelude::*;

use crate::text::{owned, strings_view};
use crate::translate::{
    backend_view, path_match_view, redirect_view, rule_view, rules_view, BackendRef, BackendView, HttpRouteManifest,
    HttpRouteRule, PathMatch, PathMatchView, RedirectView, RequestRedirect, RuleView,
};

verus! {

/// A node of a manifest document.
#[derive(Debug)]
pub enum DocNode {
    /// A mapping, its entries in the order they are written.
    Mapping(Vec<(String, DocNode)>),
    List(Vec<DocNode>),
    Text(String),
    Number(u64),
}

/// Keys of a mapping, in order; none for any other node.
pub open spec fn doc_keys(n: DocNode) -> Seq<Seq<char>> {
    match n {
        DocNode::Mapping(es) => es@.map_values(|e: (String, DocNode)| e.0@),
        _ => Seq::empty(),
    }
}

/// Number of entries of a mapping or items of a list.
pub open spec fn doc_len(n: DocNode) -> int {
    match n {
        DocNode::Mapping(es) => es@.len() as int,
        DocNode::List(v) => v@.len() as int,
        _ => 0,
    }
}

/// The value of the `i`-th entry of a mapping, or the `i`-th item of a list.
pub open spec fn doc_at(n: DocNode, i: int) -> DocNode {
    match n {
        DocNode::Mapping(es) => es@[i].1,
        DocNode::List(v) => v@[i],
        _ => n,
    }
}

/// `n` is the text `t`.
pub open spec fn is_text(n: DocNode, t: Seq<char>) -> bool {
    n matches DocNode::Text(s) && s@ == t
}

/// `n` is the number `v`.
pub open spec fn is_number(n: DocNode, v: u64) -> bool {
    n matches DocNode::Number(x) && x == v
}

/// `n` is a mapping with exactly these keys, in this order.
pub open spec fn map_with(n: DocNode, keys: Seq<Seq<char>>) -> bool {
    n is Mapping && doc_keys(n) == keys
}

/// `n` is a list of `len` items.
pub open spec fn list_of(n: DocNode, len: int) -> bool {
    n is List && doc_len(n) == len
}

/// A path match: `path: {type, value}`.
pub open spec fn path_match_doc(n: DocNode, m: PathMatchView) -> bool {
    &&& map_with(n, seq!["path"@])
    &&& map_with(doc_at(n, 0), seq!["type"@, "value"@])
    &&& is_text(doc_at(doc_at(n, 0), 0), m.path_type)
    &&& is_text(doc_at(doc_at(n, 0), 1), m.value)
}

/// A backend: its `name`, and its `port` when it has one.
pub open spec fn backend_doc(n: DocNode, b: BackendView) -> bool {
    &&& is_text(doc_at(n, 0), b.name)
    &&& match b.port {
        Some(p) => map_with(n, seq!["name"@, "port"@]) && is_number(doc_at(n, 1), p),
        None => map_with(n, seq!["name"@]),
    }
}

/// Keys of a redirect: `path` and `scheme` when set, and always `statusCode`.
pub open spec fn redirect_keys(r: RedirectView) -> Seq<Seq<char>> {
    (if r.replace_full_path is Some {
        seq!["path"@]
    } else {
        Seq::empty()
    }) + (if r.scheme is Some {
        seq!["scheme"@]
    } else {
        Seq::empty()
    }) + seq!["statusCode"@]
}

/// A redirect: the full path to replace (`{replaceFullPath, type: ReplaceFullPath}`) and
/// the scheme when set, and the status code.
pub open spec fn redirect_doc(n: DocNode, r: RedirectView) -> bool {
    let pi: int = if r.replace_full_path is Some { 1 } else { 0 };
    let si: int = pi + if r.scheme is Some { 1int } else { 0int };
    &&& map_with(n, redirect_keys(r))
    &&& (r.replace_full_path matches Some(p) ==> {
        &&& map_with(doc_at(n, 0), seq!["replaceFullPath"@, "type"@])
        &&& is_text(doc_at(doc_at(n, 0), 0), p)
        &&& is_text(doc_at(doc_at(n, 0), 1), "ReplaceFullPath"@)
    })
    &&& (r.scheme matches Some(sc) ==> is_text(doc_at(n, pi), sc))
    &&& is_number(doc_at(n, si), r.status_code)
}

/// The filters of a redirect rule: one `RequestRedirect` filter.
pub open spec fn filters_doc(n: DocNode, r: RedirectView) -> bool {
    &&& list_of(n, 1)
    &&& map_with(doc_at(n, 0), seq!["requestRedirect"@, "type"@])
    &&& redirect_doc(doc_at(doc_at(n, 0), 0), r)
    &&& is_text(doc_at(doc_at(n, 0), 1), "RequestRedirect"@)
}

/// Keys of a rule: `filters` for a redirect, `backendRefs` otherwise, then `matches` when
/// it has any.
pub open spec fn rule_keys(r: RuleView) -> Seq<Seq<char>> {
    seq![if r.redirect is Some { "filters"@ } else { "backendRefs"@ }] + if r.matches.len() > 0 {
        seq!["matches"@]
    } else {
        Seq::empty()
    }
}

/// A rule: its redirect filter or its backends, then its matches when it has any.
pub open spec fn rule_doc(n: DocNode, r: RuleView) -> bool {
    &&& map_with(n, rule_keys(r))
    &&& match r.redirect {
        Some(rd) => filters_doc(doc_at(n, 0), rd),
        None => {
            &&& list_of(doc_at(n, 0), r.backend_refs.len() as int)
            &&& forall|i: int| 0 <= i < r.backend_refs.len() ==> backend_doc(#[trigger] doc_at(doc_at(n, 0), i), r.backend_refs[i])
        },
    }
    &&& (r.matches.len() > 0 ==> {
        &&& list_of(doc_at(n, 1), r.matches.len() as int)
        &&& forall|i: int| 0 <= i < r.matches.len() ==> path_match_doc(#[trigger] doc_at(doc_at(n, 1), i), r.matches[i])
    })
}

/// Keys of the spec: `hostnames` when there are any, then `rules`.
pub open spec fn spec_keys(hostnames: Seq<Seq<char>>) -> Seq<Seq<char>> {
    (if hostnames.len() > 0 {
        seq!["hostnames"@]
    } else {
        Seq::empty()
    }) + seq!["rules"@]
}

/// The document of a suggested HTTPRoute: `apiVersion` `gateway.networking.k8s.io/v1`, kind
/// `HTTPRoute`, metadata with the labels naming the VirtualService it comes from, the name
/// and the namespace, and a spec with the hostnames (left out when there are none) and the
/// rules.
pub open spec fn route_doc(n: DocNode, route: HttpRouteManifest) -> bool {
    let hs = strings_view(route.hostnames@);
    let rules = rules_view(route.rules@);
    let md = doc_at(n, 2);
    let labels = doc_at(md, 0);
    let sp = doc_at(n, 3);
    let ri: int = if hs.len() > 0 { 1 } else { 0 };
    &&& map_with(n, seq!["apiVersion"@, "kind"@, "metadata"@, "spec"@])
    &&& is_text(doc_at(n, 0), "gateway.networking.k8s.io/v1"@)
    &&& is_text(doc_at(n, 1), "HTTPRoute"@)
    &&& map_with(md, seq!["labels"@, "name"@, "namespace"@])
    &&& map_with(labels, seq!["ambientor.io/source-name"@, "ambientor.io/translated-from"@])
    &&& is_text(doc_at(labels, 0), route.source_name@)
    &&& is_text(doc_at(labels, 1), "VirtualService"@)
    &&& is_text(doc_at(md, 1), route.name@)
    &&& is_text(doc_at(md, 2), route.namespace@)
    &&& map_with(sp, spec_keys(hs))
    &&& (hs.len() > 0 ==> {
        &&& list_of(doc_at(sp, 0), hs.len() as int)
        &&& forall|i: int| 0 <= i < hs.len() ==> is_text(#[trigger] doc_at(doc_at(sp, 0), i), hs[i])
    })
    &&& list_of(doc_at(sp, ri), rules.len() as int)
    &&& forall|i: int| 0 <= i < rules.len() ==> rule_doc(#[trigger] doc_at(doc_at(sp, ri), i), rules[i])
}

fn text_node(s: &str) -> (r: DocNode)
    ensures
        is_text(r, s@),
{
    DocNode::Text(owned(s))
}

fn map2(k0: &str, v0: DocNode, k1: &str, v1: DocNode) -> (r: DocNode)
    ensures
        map_with(r, seq![k0@, k1@]),
        doc_at(r, 0) == v0,
        doc_at(r, 1) == v1,
{
    let mut es: Vec<(String, DocNode)> = Vec::new();
    es.push((owned(k0), v0));
    es.push((owned(k1), v1));
    let r = DocNode::Mapping(es);
    assert(doc_keys(r) =~= seq![k0@, k1@]);
    r
}

fn map1(k0: &str, v0: DocNode) -> (r: DocNode)
    ensures
        map_with(r, seq![k0@]),
        doc_at(r, 0) == v0,
{
    let mut es: Vec<(String, DocNode)> = Vec::new();
    es.push((owned(k0), v0));
    let r = DocNode::Mapping(es);
    assert(doc_keys(r) =~= seq![k0@]);
    r
}

fn path_match_node(m: &PathMatch) -> (r: DocNode)
    ensures
        path_match_doc(r, path_match_view(*m)),
{
    let inner = map2("type", DocNode::Text(m.path_type.clone()), "value", DocNode::Text(m.value.clone()));
    map1("path", inner)
}

fn backend_node(b: &BackendRef) -> (r: DocNode)
    ensures
        backend_doc(r, backend_view(*b)),
{
    match b.port {
        Some(p) => map2("name", DocNode::Text(b.name.clone()), "port", DocNode::Number(p)),
        None => map1("name", DocNode::Text(b.name.clone())),
    }
}

fn redirect_node(rd: &RequestRedirect) -> (r: DocNode)
    ensures
        redirect_doc(r, redirect_view(Some(*rd))->0),
{
    let ghost v = redirect_view(Some(*rd))->0;
    let mut es: Vec<(String, DocNode)> = Vec::new();
    match &rd.replace_full_path {
        Some(p) => {
            let path = map2("replaceFullPath", DocNode::Text(p.clone()), "type", text_node("ReplaceFullPath"));
            es.push((owned("path"), path));
        },
        None => {},
    }
    match &rd.scheme {
        Some(sc) => {
            es.push((owned("scheme"), DocNode::Text(sc.clone())));
        },
        None => {},
    }
    es.push((owned("statusCode"), DocNode::Number(rd.status_code)));
    let r = DocNode::Mapping(es);
    assert(doc_keys(r) =~= redirect_keys(v));
    r
}

fn rule_node(rule: &HttpRouteRule) -> (r: DocNode)
    ensures
        rule_doc(r, rule_view(*rule)),
{
    let ghost v = rule_view(*rule);
    let mut es: Vec<(String, DocNode)> = Vec::new();
    match &rule.redirect {
        Some(rd) => {
            let redirect = redirect_node(rd);
            let filter = map2("requestRedirect", redirect, "type", text_node("RequestRedirect"));
            let mut filters: Vec<DocNode> = Vec::new();
            filters.push(filter);
            es.push((owned("filters"), DocNode::List(filters)));
        },
        None => {
            let mut refs: Vec<DocNode> = Vec::new();
            let mut i: usize = 0;
            while i < rule.backend_refs.len()
                invariant
                    i <= rule.backend_refs@.len(),
                    refs@.len() == i,
                    forall|q: int| 0 <= q < i ==> backend_doc(#[trigger] refs@[q], backend_view(rule.backend_refs@[q])),
                decreases rule.backend_refs@.len() - i,
            {
                refs.push(backend_node(&rule.backend_refs[i]));
                i += 1;
            }
            es.push((owned("backendRefs"), DocNode::List(refs)));
        },
    }
    if rule.matches.len() > 0 {
        let mut ms: Vec<DocNode> = Vec::new();
        let mut i: usize = 0;
        while i < rule.matches.len()
            invariant
                i <= rule.matches@.len(),
                ms@.len() == i,
                forall|q: int| 0 <= q < i ==> path_match_doc(#[trigger] ms@[q], path_match_view(rule.matches@[q])),
            decreases rule.matches@.len() - i,
        {
            ms.push(path_match_node(&rule.matches[i]));
            i += 1;
        }
        es.push((owned("matches"), DocNode::List(ms)));
    }
    let r = DocNode::Mapping(es);
    assert(doc_keys(r) =~= rule_keys(v));
    r
}

/// The document of a suggested HTTPRoute, laid out as its manifest is written.
pub fn httproute_document(route: &HttpRouteManifest) -> (d: DocNode)
    ensures
        route_doc(d, *route),
{
    let ghost hs = strings_view(route.hostnames@);
    let ghost rules = rules_view(route.rules@);
    let labels = map2(
        "ambientor.io/source-name",
        DocNode::Text(route.source_name.clone()),
        "ambientor.io/translated-from",
        text_node("VirtualService"),
    );
    let mut md: Vec<(String, DocNode)> = Vec::new();
    md.push((owned("labels"), labels));
    md.push((owned("name"), DocNode::Text(route.name.clone())));
    md.push((owned("namespace"), DocNode::Text(route.namespace.clone())));
    let metadata = DocNode::Mapping(md);
    assert(doc_keys(metadata) =~= seq!["labels"@, "name"@, "namespace"@]);
    let mut sp: Vec<(String, DocNode)> = Vec::new();
    if route.hostnames.len() > 0 {
        let mut hn: Vec<DocNode> = Vec::new();
        let mut i: usize = 0;
        while i < route.hostnames.len()
            invariant
                hs == strings_view(route.hostnames@),
                i <= route.hostnames@.len(),
                hn@.len() == i,
                forall|q: int| 0 <= q < i ==> is_text(#[trigger] hn@[q], hs[q]),
            decreases route.hostnames@.len() - i,
        {
            hn.push(DocNode::Text(route.hostnames[i].clone()));
            i += 1;
        }
        sp.push((owned("hostnames"), DocNode::List(hn)));
    }
    let mut rs: Vec<DocNode> = Vec::new();
    let mut j: usize = 0;
    while j < route.rules.len()
        invariant
            rules == rules_view(route.rules@),
            j <= route.rules@.len(),
            rs@.len() == j,
            forall|q: int| 0 <= q < j ==> rule_doc(#[trigger] rs@[q], rules[q]),
        decreases route.rules@.len() - j,
    {
        rs.push(rule_node(&route.rules[j]));
        j += 1;
    }
    sp.push((owned("rules"), DocNode::List(rs)));
    let spec = DocNode::Mapping(sp);
    assert(doc_keys(spec) =~= crate::manifest::spec_keys(hs));
    let mut top: Vec<(String, DocNode)> = Vec::new();
    top.push((owned("apiVersion"), text_node("gateway.networking.k8s.io/v1")));
    top.push((owned("kind"), text_node("HTTPRoute")));
    top.push((owned("metadata"), metadata));
    top.push((owned("spec"), spec));
    let d = DocNode::Mapping(top);
    assert(doc_keys(d) =~= seq!["apiVersion"@, "kind"@, "metadata"@, "spec"@]);
    d
}

} // verus!
