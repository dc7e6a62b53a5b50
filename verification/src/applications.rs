//! Application catalog: one assessment record per application namespace, with findings,
//! suggestions, scores and risk.

use vstd::prelude::*;

use crate::catalog::{
    suggestions_view, ApplicationAssessmentRecord, AssessmentSuggestion, RiskLevel, SuggestionView,
};
use crate::cluster_view::{enrolled_on, ns_labels, ApplicationIdentity, NamespaceSnapshot};
use crate::compute::spec_belongs_to_mesh;
use crate::attribution::{
    cluster_only, finding_fanout, findings_for, lemma_findings_for_len, partition_findings_by_namespace,
    NamespaceFindings,
};
use crate::rules::WorkloadContext;
use crate::sorting::pair_lt;
use crate::dataplane::{
    derive_dataplane_mode, is_migration_candidate, labels_indicate_mesh_membership, mode_text,
    spec_dataplane_mode, spec_mesh_membership, spec_migration_candidate, DataplaneMode, NamespaceMeshFacts,
};
use crate::deep_analysis::{
    enrich_ambient_application, opt_mesh, severity_text, severity_word, spec_enrich, suggestion, Investigation,
};
use crate::labels::Labels;
use crate::model::{count_severity, duplicate_findings, findings_view, Finding, FindingCategory, FindingSeverity, FindingSummary, FindingView, MeshInstance};
use crate::rules::RuleContext;
use crate::scoring::{compute_scores, spec_scores};
use crate::text::{owned, str_eq, strings_view, text_less, text_lt};

verus! {

/// Label keys of Istio kept on catalog records.
pub open spec fn is_istio_label_key(k: Seq<char>) -> bool {
    k == "istio-discovery"@ || k == "istio.io/rev"@ || k == "istio-injection"@ || k == "istio.io/dataplane-mode"@
        || k == "istio.io/use-waypoint"@
}

/// The Istio labels of a label map.
pub open spec fn istio_labels(m: Map<Seq<char>, Seq<char>>) -> Map<Seq<char>, Seq<char>> {
    Map::new(|k: Seq<char>| m.contains_key(k) && is_istio_label_key(k), |k: Seq<char>| m[k])
}

/// Labels of an optional label set; none when absent.
pub open spec fn label_map(labels: Option<Map<Seq<char>, Seq<char>>>) -> Map<Seq<char>, Seq<char>> {
    match labels {
        Some(m) => m,
        None => Map::empty(),
    }
}

/// The Istio labels of a namespace.
pub fn istio_namespace_labels(labels: Option<&Labels>) -> (r: Labels)
    ensures
        r@ == istio_labels(label_map(crate::compute::opt_labels(labels))),
{
    let mut out = Labels::new();
    let labels = match labels {
        Some(l) => l,
        None => {
            assert(out@ =~= istio_labels(Map::empty()));
            return out;
        },
    };
    let keys = ["istio-discovery", "istio.io/rev", "istio-injection", "istio.io/dataplane-mode", "istio.io/use-waypoint"];
    let ghost kv = seq!["istio-discovery"@, "istio.io/rev"@, "istio-injection"@, "istio.io/dataplane-mode"@, "istio.io/use-waypoint"@];
    let mut i: usize = 0;
    while i < 5
        invariant
            i <= 5,
            kv == seq!["istio-discovery"@, "istio.io/rev"@, "istio-injection"@, "istio.io/dataplane-mode"@, "istio.io/use-waypoint"@],
            forall|j: int| 0 <= j < 5 ==> #[trigger] keys@[j]@ == kv[j],
            out@ == Map::new(
                |k: Seq<char>| labels@.contains_key(k) && kv.take(i as int).contains(k),
                |k: Seq<char>| labels@[k],
            ),
        decreases 5 - i,
    {
        let key = keys[i];
        let ghost prev = out@;
        match labels.get(key) {
            Some(v) => {
                out.insert(owned(key), v.clone());
            },
            None => {},
        }
        proof {
            assert(key@ == kv[i as int]);
            assert(kv.take(i + 1) =~= kv.take(i as int).push(kv[i as int]));
            let t1 = kv.take(i + 1);
            let t0 = kv.take(i as int);
            assert forall|k: Seq<char>| t1.contains(k) <==> (t0.contains(k) || k == kv[i as int]) by {
                if t1.contains(k) {
                    let j = choose|j: int| 0 <= j < t1.len() && t1[j] == k;
                    if j < i {
                        assert(t0[j] == k);
                    }
                }
                if t0.contains(k) {
                    let j = choose|j: int| 0 <= j < t0.len() && t0[j] == k;
                    assert(t1[j] == k);
                }
                if k == kv[i as int] {
                    assert(t1[i as int] == k);
                }
            }
            assert(out@ =~= Map::new(
                |k: Seq<char>| labels@.contains_key(k) && kv.take(i + 1).contains(k),
                |k: Seq<char>| labels@[k],
            ));
        }
        i += 1;
    }
    proof {
        assert(kv.take(5) =~= kv);
        assert forall|k: Seq<char>| kv.contains(k) <==> is_istio_label_key(k) by {
            if is_istio_label_key(k) {
                if k == "istio-discovery"@ {
                    assert(kv[0] == k);
                } else if k == "istio.io/rev"@ {
                    assert(kv[1] == k);
                } else if k == "istio-injection"@ {
                    assert(kv[2] == k);
                } else if k == "istio.io/dataplane-mode"@ {
                    assert(kv[3] == k);
                } else {
                    assert(kv[4] == k);
                }
            }
        }
        assert(out@ =~= istio_labels(labels@));
    }
    out
}

/// Risk of an application from its findings summary and readiness.
pub open spec fn spec_risk_level(blockers: u32, warnings: u32, readiness_pct: u8) -> RiskLevel {
    if blockers > 0 {
        RiskLevel::Critical
    } else if readiness_pct < 50 {
        RiskLevel::High
    } else if warnings > 0 || readiness_pct < 80 {
        RiskLevel::Medium
    } else {
        RiskLevel::Low
    }
}

/// Risk of an application: critical with blockers, high below 50% readiness, medium with
/// warnings or below 80%, low otherwise.
pub fn derive_risk_level(summary: &FindingSummary, readiness_pct: u8) -> (r: RiskLevel)
    ensures
        r == spec_risk_level(summary.blockers, summary.warnings, readiness_pct),
{
    if summary.blockers > 0 {
        RiskLevel::Critical
    } else if readiness_pct < 50 {
        RiskLevel::High
    } else if summary.warnings > 0 || readiness_pct < 80 {
        RiskLevel::Medium
    } else {
        RiskLevel::Low
    }
}

/// Whether to warn that a namespace on a mesh with workloads has no hostnames: it must be
/// on a mesh, run workloads, and either have no labels or carry mesh enrollment labels.
pub open spec fn spec_should_warn_missing_hostnames(
    mesh: Option<MeshInstance>,
    labels: Option<Map<Seq<char>, Seq<char>>>,
    workload_count: u32,
) -> bool {
    mesh is Some && workload_count != 0 && match labels {
        None => true,
        Some(m) => spec_mesh_membership(m),
    }
}

pub fn should_warn_missing_hostnames(mesh: Option<&MeshInstance>, labels: Option<&Labels>, workload_count: u32) -> (r: bool)
    ensures
        r == spec_should_warn_missing_hostnames(opt_mesh(mesh), crate::compute::opt_labels(labels), workload_count),
{
    if mesh.is_none() {
        return false;
    }
    if workload_count == 0 {
        return false;
    }
    match labels {
        None => true,
        Some(l) => labels_indicate_mesh_membership(l),
    }
}

pub open spec fn mesh_hint(mesh: Option<MeshInstance>) -> Seq<char> {
    match mesh {
        Some(m) => " (istiod revision `"@ + m.revision@ + "`)"@,
        None => Seq::empty(),
    }
}

pub open spec fn spec_missing_hostname_finding(ns: Seq<char>, mesh: Option<MeshInstance>) -> FindingView {
    FindingView {
        id: "traffic.missing-hostnames"@,
        severity: FindingSeverity::Warning,
        category: FindingCategory::TrafficCompatibility,
        title: "No routable hostnames detected"@,
        message: "Namespace `"@ + ns + "` has workloads on the mesh"@ + mesh_hint(mesh)
            + " but no VirtualService or HTTPRoute hostnames were found. External or east-west traffic may be undefined for ambient migration planning."@,
        namespace: Some(ns),
        resource: None,
        remediation: Some(
            "Document public hostnames on VirtualService `spec.hosts` or Gateway API HTTPRoute `spec.hostnames`, or confirm the app is internal-only (service DNS only)."@,
        ),
        doc_url: None,
        evidence: None,
    }
}

/// The finding for a namespace on a mesh without routable hostnames.
pub fn missing_hostname_finding(ns_name: &str, mesh: Option<&MeshInstance>) -> (r: Finding)
    ensures
        r@ == spec_missing_hostname_finding(ns_name@, opt_mesh(mesh)),
{
    let mut message = owned("Namespace `");
    message.append(ns_name);
    message.append("` has workloads on the mesh");
    let hint = match mesh {
        Some(m) => {
            let mut h = owned(" (istiod revision `");
            h.append(m.revision.as_str());
            h.append("`)");
            h
        },
        None => String::new(),
    };
    message.append(hint.as_str());
    message.append(
        " but no VirtualService or HTTPRoute hostnames were found. External or east-west traffic may be undefined for ambient migration planning.",
    );
    Finding {
        id: owned("traffic.missing-hostnames"),
        severity: FindingSeverity::Warning,
        category: FindingCategory::TrafficCompatibility,
        title: owned("No routable hostnames detected"),
        message,
        namespace: Some(owned(ns_name)),
        resource: None,
        remediation: Some(
            owned(
                "Document public hostnames on VirtualService `spec.hosts` or Gateway API HTTPRoute `spec.hostnames`, or confirm the app is internal-only (service DNS only).",
            ),
        ),
        doc_url: None,
        evidence: None,
    }
}

pub open spec fn spec_missing_hostname_suggestion(ns: Seq<char>) -> SuggestionView {
    suggestion(
        "traffic.missing-hostnames"@,
        "warning"@,
        "Declare hostnames before ambient cutover"@,
        "Add VirtualService/HTTPRoute hostnames for namespace `"@ + ns
            + "`, verify Gateway attachment, and re-run assessment. Missing hostnames increase traffic-cutover risk during migration."@,
    )
}

/// The suggestion for a namespace without routable hostnames.
pub fn missing_hostname_suggestion(ns_name: &str) -> (r: AssessmentSuggestion)
    ensures
        r@ == spec_missing_hostname_suggestion(ns_name@),
{
    let mut remediation = owned("Add VirtualService/HTTPRoute hostnames for namespace `");
    remediation.append(ns_name);
    remediation.append(
        "`, verify Gateway attachment, and re-run assessment. Missing hostnames increase traffic-cutover risk during migration.",
    );
    AssessmentSuggestion {
        finding_id: owned("traffic.missing-hostnames"),
        severity: owned("warning"),
        title: owned("Declare hostnames before ambient cutover"),
        remediation,
    }
}

/// One suggestion per finding with a remediation, in order.
pub open spec fn spec_suggestions_from(fs: Seq<FindingView>) -> Seq<SuggestionView>
    decreases fs.len(),
{
    if fs.len() == 0 {
        Seq::empty()
    } else {
        let p = spec_suggestions_from(fs.drop_last());
        let f = fs.last();
        match f.remediation {
            Some(r) => p.push(suggestion(f.id, severity_word(f.severity), f.title, r)),
            None => p,
        }
    }
}

/// One suggestion per finding with a remediation.
pub fn suggestions_from_findings(findings: &Vec<Finding>) -> (r: Vec<AssessmentSuggestion>)
    ensures
        suggestions_view(r@) == spec_suggestions_from(findings_view(findings@)),
{
    let ghost fv = findings_view(findings@);
    let mut out: Vec<AssessmentSuggestion> = Vec::new();
    let mut i: usize = 0;
    while i < findings.len()
        invariant
            fv == findings_view(findings@),
            i <= findings@.len(),
            suggestions_view(out@) == spec_suggestions_from(fv.take(i as int)),
        decreases findings@.len() - i,
    {
        assert(fv.take(i + 1).drop_last() =~= fv.take(i as int));
        assert(fv.take(i + 1).last() == findings@[i as int]@);
        let f = &findings[i];
        match &f.remediation {
            Some(r) => {
                let s = AssessmentSuggestion {
                    finding_id: f.id.clone(),
                    severity: owned(severity_text(f.severity)),
                    title: f.title.clone(),
                    remediation: r.clone(),
                };
                let ghost before = out@;
                out.push(s);
                assert(suggestions_view(out@) =~= suggestions_view(before).push(s@));
            },
            None => {},
        }
        i += 1;
    }
    assert(fv.take(findings@.len() as int) =~= fv);
    out
}

/// `x` is the least text of a set, in code-point order.
pub open spec fn least_text(x: Seq<char>, set: Seq<Seq<char>>) -> bool {
    set.contains(x) && forall|y: Seq<char>| set.contains(y) ==> !text_lt(y, x)
}

/// The ingress gateway namespace of an application: its own namespace when it runs an
/// ingress gateway, else the least namespace that does, if any.
pub open spec fn ingress_choice(r: Option<Seq<char>>, set: Seq<Seq<char>>, ns: Seq<char>) -> bool {
    if set.contains(ns) {
        r == Some(ns)
    } else if set.len() == 0 {
        r is None
    } else {
        r matches Some(x) && least_text(x, set)
    }
}

fn ingress_gateway_for(ingress_ns: &Vec<String>, ns_name: &str) -> (r: Option<String>)
    ensures
        ingress_choice(crate::refs::opt_text(r), strings_view(ingress_ns@), ns_name@),
{
    let ghost set = strings_view(ingress_ns@);
    if crate::refs::vec_contains_str(ingress_ns, ns_name) {
        return Some(owned(ns_name));
    }
    if ingress_ns.len() == 0 {
        return None;
    }
    let mut best: usize = 0;
    let mut i: usize = 1;
    proof {
        crate::text::lemma_text_lt_irreflexive(set[0]);
    }
    while i < ingress_ns.len()
        invariant
            set == strings_view(ingress_ns@),
            1 <= i <= ingress_ns@.len(),
            best < i,
            forall|j: int| 0 <= j < i ==> !text_lt(set[j], set[best as int]),
        decreases ingress_ns@.len() - i,
    {
        if text_less(ingress_ns[i].as_str(), ingress_ns[best].as_str()) {
            proof {
                assert forall|j: int| 0 <= j < i + 1 implies !text_lt(set[j], set[i as int]) by {
                    if j < i && text_lt(set[j], set[i as int]) {
                        crate::text::lemma_text_lt_transitive(set[j], set[i as int], set[best as int]);
                    }
                    if j == i {
                        crate::text::lemma_text_lt_irreflexive(set[j]);
                    }
                }
            }
            best = i;
        }
        i += 1;
    }
    proof {
        assert(set.contains(set[best as int]));
        assert forall|y: Seq<char>| set.contains(y) implies !text_lt(y, set[best as int]) by {
            let j = choose|j: int| 0 <= j < set.len() && set[j] == y;
        }
    }
    Some(ingress_ns[best].clone())
}

/// Hostnames per namespace, as `(namespace, hostname)` pairs.
#[derive(Debug)]
pub struct HostnameIndex {
    pub pairs: Vec<(String, String)>,
}

/// Hostnames of a namespace in an index, in the index's order.
pub open spec fn hostnames_of(pairs: Seq<(String, String)>, ns: Seq<char>) -> Seq<Seq<char>>
    decreases pairs.len(),
{
    if pairs.len() == 0 {
        Seq::empty()
    } else if pairs.last().0@ == ns {
        hostnames_of(pairs.drop_last(), ns).push(pairs.last().1@)
    } else {
        hostnames_of(pairs.drop_last(), ns)
    }
}

impl HostnameIndex {
    /// Hostnames of a namespace.
    pub fn hostnames(&self, ns: &str) -> (r: Vec<String>)
        ensures
            strings_view(r@) == hostnames_of(self.pairs@, ns@),
    {
        let ghost ps = self.pairs@;
        let mut out: Vec<String> = Vec::new();
        let mut i: usize = 0;
        while i < self.pairs.len()
            invariant
                ps == self.pairs@,
                i <= ps.len(),
                strings_view(out@) == hostnames_of(ps.take(i as int), ns@),
            decreases ps.len() - i,
        {
            assert(ps.take(i + 1).drop_last() =~= ps.take(i as int));
            if str_eq(self.pairs[i].0.as_str(), ns) {
                let ghost before = out@;
                out.push(self.pairs[i].1.clone());
                assert(strings_view(out@) =~= strings_view(before).push(ps[i as int].1@));
            }
            i += 1;
        }
        assert(ps.take(ps.len() as int) =~= ps);
        out
    }
}

/// Identity of an optional reference.
pub open spec fn opt_identity(identity: Option<&ApplicationIdentity>) -> Option<ApplicationIdentity> {
    match identity {
        Some(i) => Some(*i),
        None => None,
    }
}

/// Dataplane mode of a catalog namespace: from its labels and, when it has a mesh, whether
/// that mesh's enrollment selects it.
pub open spec fn record_dataplane(
    labels: Option<Map<Seq<char>, Seq<char>>>,
    mesh: Option<MeshInstance>,
    enrolled_on_mesh: bool,
) -> DataplaneMode {
    spec_dataplane_mode(label_map(labels), if mesh is Some { Some(enrolled_on_mesh) } else { None })
}

/// Findings and suggestions of a catalog record: the namespace's findings, with the missing
/// hostnames warning outside ambient scope, their suggestions outside ambient scope, and the
/// deep investigation in ambient scope.
pub open spec fn record_investigation(
    ctx: RuleContext,
    ns: Seq<char>,
    labels: Option<Map<Seq<char>, Seq<char>>>,
    mesh: Option<MeshInstance>,
    enrolled_on_mesh: bool,
    findings: Seq<FindingView>,
    hostnames_empty: bool,
    workload_count: u32,
) -> Investigation {
    let dp = record_dataplane(labels, mesh, enrolled_on_mesh);
    let scope = dp == DataplaneMode::Ambient || (mesh is Some && mesh->0.ambient);
    let warn = hostnames_empty && spec_should_warn_missing_hostnames(mesh, labels, workload_count) && !scope;
    let f1 = if warn {
        findings.push(spec_missing_hostname_finding(ns, mesh))
    } else {
        findings
    };
    let s0 = if scope {
        Seq::empty()
    } else {
        spec_suggestions_from(f1)
    };
    let s1 = if warn {
        s0.push(spec_missing_hostname_suggestion(ns))
    } else {
        s0
    };
    if scope {
        spec_enrich(ns, dp, mesh, ctx, (f1, s1), hostnames_empty, workload_count)
    } else {
        (f1, s1)
    }
}

/// Where a catalog namespace stands: its name and labels, its mesh and whether that mesh's
/// enrollment selects it, and its identity and inventory facts.
pub open spec fn record_built(
    r: ApplicationAssessmentRecord,
    ctx: RuleContext,
    ns: Seq<char>,
    labels: Option<Map<Seq<char>, Seq<char>>>,
    mesh: Option<MeshInstance>,
    enrolled_on_mesh: bool,
    findings: Seq<FindingView>,
    hostnames: Seq<(String, String)>,
    ingress_ns: Seq<Seq<char>>,
    identity: Option<ApplicationIdentity>,
    is_application_namespace: bool,
    is_ambient_control_plane_namespace: bool,
) -> bool {
    let wc: u32 = match identity {
        Some(i) => i.app_pod_count,
        None => 0,
    };
    let dp = record_dataplane(labels, mesh, enrolled_on_mesh);
    let hs = hostnames_of(hostnames, ns);
    let facts = NamespaceMeshFacts {
        is_application_namespace,
        is_ambient_control_plane_namespace,
        is_infrastructure_identity: identity is Some && identity->0.is_mesh_infrastructure,
    };
    let sc = spec_scores(r.findings@);
    &&& r.namespace@ == ns
    &&& r.application_name@ == match identity {
        Some(i) => i.application_name@,
        None => ns,
    }
    &&& strings_view(r.workload_components@) == match identity {
        Some(i) => strings_view(i.workload_components@),
        None => Seq::empty(),
    }
    &&& r.migration_candidate == spec_migration_candidate(dp, wc, label_map(labels), facts)
    &&& crate::model::opt_view(r.mesh_revision) == match mesh {
        Some(m) => Some(m.revision@),
        None => None,
    }
    &&& crate::model::opt_view(r.discovery_label) == match mesh {
        Some(m) => Some(m.discovery_label@),
        None => None,
    }
    &&& crate::model::opt_view(r.control_plane_namespace) == match mesh {
        Some(m) => Some(m.control_plane_namespace@),
        None => None,
    }
    &&& strings_view(r.hostnames@) == hs
    &&& r.namespace_labels@ == istio_labels(label_map(labels))
    &&& r.dataplane_mode@ == mode_text(dp)
    &&& ingress_choice(crate::model::opt_view(r.ingress_gateway_namespace), ingress_ns, ns)
    &&& r.ingress_same_namespace == ingress_ns.contains(ns)
    &&& r.workload_count == wc
    &&& (findings_view(r.findings@), suggestions_view(r.suggestions@)) == record_investigation(
        ctx,
        ns,
        labels,
        mesh,
        enrolled_on_mesh,
        findings,
        hs.len() == 0,
        wc,
    )
    &&& r.scores.readiness == sc.0
    &&& r.scores.sidecar_dependency == sc.1
    &&& r.scores.traffic_compatibility == sc.2
    &&& r.scores.overall == sc.3
    &&& r.readiness_pct == sc.3
    &&& r.summary.blockers == count_severity(r.findings@, FindingSeverity::Blocker)
    &&& r.summary.warnings == count_severity(r.findings@, FindingSeverity::Warning)
    &&& r.summary.info == count_severity(r.findings@, FindingSeverity::Info)
    &&& r.blocker_count == r.summary.blockers
    &&& r.warning_count == r.summary.warnings
    &&& r.risk_level == spec_risk_level(r.summary.blockers, r.summary.warnings, r.readiness_pct)
}

fn clone_texts(v: &Vec<String>) -> (r: Vec<String>)
    ensures
        strings_view(r@) == strings_view(v@),
{
    let mut out: Vec<String> = Vec::new();
    let mut j: usize = 0;
    while j < v.len()
        invariant
            j <= v@.len(),
            strings_view(out@) == strings_view(v@).take(j as int),
        decreases v@.len() - j,
    {
        let ghost before = out@;
        out.push(v[j].clone());
        assert(strings_view(out@) =~= strings_view(before).push(v@[j as int]@));
        j += 1;
        assert(strings_view(v@).take(j as int) =~= strings_view(v@).take(j - 1).push(v@[j - 1]@));
    }
    assert(strings_view(v@).take(v@.len() as int) =~= strings_view(v@));
    out
}

fn push_finding_view(findings: &mut Vec<Finding>, f: Finding)
    ensures
        findings_view(final(findings)@) == findings_view(old(findings)@).push(f@),
{
    findings.push(f);
    assert(findings_view(findings@) =~= findings_view(old(findings)@).push(f@));
}

/// The catalog record of one application namespace.
pub fn build_app_record(
    ctx: &RuleContext,
    ns_name: &str,
    labels: Option<&Labels>,
    mesh: Option<&MeshInstance>,
    enrolled_on_mesh: bool,
    findings: &Vec<Finding>,
    hostnames_by_ns: &HostnameIndex,
    ingress_ns: &Vec<String>,
    identity: Option<&ApplicationIdentity>,
    is_application_namespace: bool,
    is_ambient_control_plane_namespace: bool,
) -> (r: ApplicationAssessmentRecord)
    requires
        findings@.len() + 2 * ctx.workloads@.len() + 5 <= u32::MAX,
    ensures
        record_built(
            r,
            *ctx,
            ns_name@,
            crate::compute::opt_labels(labels),
            opt_mesh(mesh),
            enrolled_on_mesh,
            findings_view(findings@),
            hostnames_by_ns.pairs@,
            strings_view(ingress_ns@),
            opt_identity(identity),
            is_application_namespace,
            is_ambient_control_plane_namespace,
        ),
{
    let app_pod_count: u32 = match identity {
        Some(i) => i.app_pod_count,
        None => 0,
    };
    let application_name = match identity {
        Some(i) => i.application_name.clone(),
        None => owned(ns_name),
    };
    let workload_components = match identity {
        Some(i) => clone_texts(&i.workload_components),
        None => {
            let v: Vec<String> = Vec::new();
            assert(strings_view(v@) =~= Seq::<Seq<char>>::empty());
            v
        },
    };
    let hostnames = hostnames_by_ns.hostnames(ns_name);
    let empty = Labels::new();
    let label_ref = match labels {
        Some(l) => l,
        None => &empty,
    };
    let enrolled = match mesh {
        Some(_) => Some(enrolled_on_mesh),
        None => None,
    };
    let dataplane = derive_dataplane_mode(label_ref, enrolled);
    let ambient_scope = crate::dataplane::is_ambient_mesh_scope(dataplane, mesh);
    let hostnames_empty = hostnames.len() == 0;
    let warn = hostnames_empty && should_warn_missing_hostnames(mesh, labels, app_pod_count) && !ambient_scope;
    let mut app_findings = duplicate_findings(findings);
    if warn {
        push_finding_view(&mut app_findings, missing_hostname_finding(ns_name, mesh));
    }
    let mut suggestions = if ambient_scope {
        let v: Vec<AssessmentSuggestion> = Vec::new();
        assert(suggestions_view(v@) =~= Seq::<SuggestionView>::empty());
        v
    } else {
        suggestions_from_findings(&app_findings)
    };
    if warn {
        let sgg = missing_hostname_suggestion(ns_name);
        let ghost before = suggestions@;
        suggestions.push(sgg);
        assert(suggestions_view(suggestions@) =~= suggestions_view(before).push(sgg@));
    }
    let ghost f1 = findings_view(app_findings@);
    proof {
        lemma_enrich_len_bound(*ctx, ns_name@, dataplane, opt_mesh(mesh), f1, suggestions_view(suggestions@), hostnames_empty, app_pod_count);
    }
    if ambient_scope {
        enrich_ambient_application(
            ns_name,
            dataplane,
            mesh,
            ctx,
            &mut app_findings,
            &mut suggestions,
            hostnames_empty,
            app_pod_count,
        );
    }
    let facts = NamespaceMeshFacts {
        is_application_namespace,
        is_ambient_control_plane_namespace,
        is_infrastructure_identity: match identity {
            Some(i) => i.is_mesh_infrastructure,
            None => false,
        },
    };
    let migration_candidate = is_migration_candidate(dataplane, app_pod_count, label_ref, &facts);
    assert(findings_view(app_findings@).len() == app_findings@.len());
    let scores = compute_scores(app_findings.as_slice());
    let summary = FindingSummary::from_findings(app_findings.as_slice());
    let readiness_pct = scores.overall;
    let risk_level = derive_risk_level(&summary, readiness_pct);
    let ingress_gateway_namespace = ingress_gateway_for(ingress_ns, ns_name);
    let ingress_same_namespace = crate::refs::vec_contains_str(ingress_ns, ns_name);
    ApplicationAssessmentRecord {
        namespace: owned(ns_name),
        application_name,
        workload_components,
        migration_candidate,
        mesh_revision: match mesh {
            Some(m) => Some(m.revision.clone()),
            None => None,
        },
        discovery_label: match mesh {
            Some(m) => Some(m.discovery_label.clone()),
            None => None,
        },
        control_plane_namespace: match mesh {
            Some(m) => Some(m.control_plane_namespace.clone()),
            None => None,
        },
        hostnames,
        namespace_labels: istio_namespace_labels(labels),
        dataplane_mode: owned(dataplane.as_str()),
        ingress_gateway_namespace,
        ingress_same_namespace,
        workload_count: app_pod_count,
        readiness_pct,
        risk_level,
        blocker_count: summary.blockers,
        warning_count: summary.warnings,
        scores,
        summary,
        findings: app_findings,
        suggestions,
    }
}

proof fn lemma_enrich_len_bound(
    ctx: RuleContext,
    ns: Seq<char>,
    dp: DataplaneMode,
    mesh: Option<MeshInstance>,
    f1: Seq<FindingView>,
    s1: Seq<SuggestionView>,
    hostnames_empty: bool,
    wc: u32,
)
    ensures
        spec_enrich(ns, dp, mesh, ctx, (f1, s1), hostnames_empty, wc).0.len() <= f1.len() + 2 * ctx.workloads@.len() + 4,
{
    crate::deep_analysis::lemma_enrich_len(ns, dp, mesh, ctx, (f1, s1), hostnames_empty, wc);
}

// ---------------------------------------------------------------------------
// Cluster catalog
// ---------------------------------------------------------------------------

/// First entry with the given name.
pub open spec fn first_named(s: Seq<NamespaceSnapshot>, name: Seq<char>) -> Option<int>
    decreases s.len(),
{
    if s.len() == 0 {
        None
    } else if s[0].name@ == name {
        Some(0)
    } else {
        match first_named(s.drop_first(), name) {
            Some(i) => Some(i + 1),
            None => None,
        }
    }
}

/// A namespace that may appear in the catalog: an application namespace, not an ambient
/// control plane, whose pods run applications and are not mesh infrastructure.
pub open spec fn eligible_entry(n: NamespaceSnapshot) -> bool {
    &&& n.is_application_namespace
    &&& !n.is_ambient_control_plane_namespace
    &&& n.identity is Some
    &&& !n.identity->0.is_mesh_infrastructure
    &&& n.identity->0.app_pod_count != 0
}

/// Catalog eligibility of a namespace name, by what is known of it.
pub open spec fn eligible_name(all: Seq<NamespaceSnapshot>, name: Seq<char>) -> bool {
    match first_named(all, name) {
        Some(i) => eligible_entry(all[i]),
        None => false,
    }
}

/// Whether mesh `k` takes the namespace entry.
pub open spec fn belongs_k(n: NamespaceSnapshot, meshes: Seq<MeshInstance>, k: int) -> bool {
    spec_belongs_to_mesh(ns_labels(n), meshes[k], enrolled_on(n, k))
}

/// First mesh, from position `k` on, that takes the namespace entry.
pub open spec fn first_mesh_from(n: NamespaceSnapshot, meshes: Seq<MeshInstance>, k: int) -> Option<int>
    decreases meshes.len() - k,
{
    if k < 0 || k >= meshes.len() {
        None
    } else if belongs_k(n, meshes, k) {
        Some(k)
    } else {
        first_mesh_from(n, meshes, k + 1)
    }
}

/// Some workload of the namespace runs an Istio sidecar.
pub open spec fn has_sidecar(ws: Seq<WorkloadContext>, name: Seq<char>) -> bool {
    exists|i: int| 0 <= i < ws.len() && ws[i].namespace@ == name && ws[i].has_istio_sidecar
}

/// Where a catalog record comes from: the listed namespace entry it takes its labels from,
/// its mesh, and its findings.
pub struct CatalogChoice {
    pub entry: Option<int>,
    pub mesh: Option<int>,
    pub findings: Seq<FindingView>,
}

/// What the catalog is computed from.
pub struct CatalogInputs {
    /// Namespaces listed on the cluster.
    pub listed: Seq<NamespaceSnapshot>,
    /// Listed namespaces, then namespaces known only from their workloads.
    pub all: Seq<NamespaceSnapshot>,
    pub meshes: Seq<MeshInstance>,
    /// Findings per namespace.
    pub groups: Map<Seq<char>, Seq<FindingView>>,
    pub ctx: RuleContext,
}

/// The pass of mesh `k` over the first `jn` listed namespaces.
pub open spec fn mesh_pass(inp: CatalogInputs, k: int, jn: int, m: Map<Seq<char>, CatalogChoice>) -> Map<Seq<char>, CatalogChoice>
    decreases jn,
{
    if jn <= 0 {
        m
    } else {
        let m1 = mesh_pass(inp, k, jn - 1, m);
        let n = inp.listed[jn - 1];
        if eligible_name(inp.all, n.name@) && belongs_k(n, inp.meshes, k) && !m1.contains_key(n.name@) {
            m1.insert(
                n.name@,
                CatalogChoice { entry: Some(jn - 1), mesh: Some(k), findings: group_of_findings(inp.groups, n.name@) },
            )
        } else {
            m1
        }
    }
}

/// Findings of a namespace, none when absent.
pub open spec fn group_of_findings(m: Map<Seq<char>, Seq<FindingView>>, k: Seq<char>) -> Seq<FindingView> {
    if m.contains_key(k) {
        m[k]
    } else {
        Seq::empty()
    }
}

/// Catalog after the passes of the first `kn` meshes: each eligible namespace on its first mesh.
pub open spec fn mesh_phase(inp: CatalogInputs, kn: int) -> Map<Seq<char>, CatalogChoice>
    decreases kn,
{
    if kn <= 0 {
        Map::empty()
    } else {
        mesh_pass(inp, kn - 1, inp.listed.len() as int, mesh_phase(inp, kn - 1))
    }
}

/// Where a namespace known only from its findings comes from.
pub open spec fn findings_choice(inp: CatalogInputs, x: Seq<char>) -> CatalogChoice {
    let e = first_named(inp.listed, x);
    CatalogChoice {
        entry: e,
        mesh: match e {
            Some(j) => first_mesh_from(inp.listed[j], inp.meshes, 0),
            None => None,
        },
        findings: inp.groups[x],
    }
}

/// Catalog after adding the eligible namespaces with findings.
pub open spec fn findings_phase(inp: CatalogInputs, m: Map<Seq<char>, CatalogChoice>) -> Map<Seq<char>, CatalogChoice> {
    Map::new(
        |x: Seq<char>| m.contains_key(x) || (inp.groups.contains_key(x) && eligible_name(inp.all, x)),
        |x: Seq<char>| if m.contains_key(x) { m[x] } else { findings_choice(inp, x) },
    )
}

/// Catalog after adding, over the first `jn` listed namespaces, the eligible ones with
/// sidecar workloads.
pub open spec fn sidecar_phase(inp: CatalogInputs, jn: int, m: Map<Seq<char>, CatalogChoice>) -> Map<Seq<char>, CatalogChoice>
    decreases jn,
{
    if jn <= 0 {
        m
    } else {
        let m1 = sidecar_phase(inp, jn - 1, m);
        let n = inp.listed[jn - 1];
        if !m1.contains_key(n.name@) && eligible_name(inp.all, n.name@) && has_sidecar(inp.ctx.workloads@, n.name@) {
            m1.insert(
                n.name@,
                CatalogChoice {
                    entry: Some(jn - 1),
                    mesh: first_mesh_from(n, inp.meshes, 0),
                    findings: group_of_findings(inp.groups, n.name@),
                },
            )
        } else {
            m1
        }
    }
}

/// The catalog: each namespace it lists and where its record comes from.
pub open spec fn catalog_choices(inp: CatalogInputs) -> Map<Seq<char>, CatalogChoice> {
    sidecar_phase(inp, inp.listed.len() as int, findings_phase(inp, mesh_phase(inp, inp.meshes.len() as int)))
}

/// A record built from its choice.
pub open spec fn record_of_choice(
    r: ApplicationAssessmentRecord,
    inp: CatalogInputs,
    c: CatalogChoice,
    hostnames: Seq<(String, String)>,
    ingress_ns: Seq<Seq<char>>,
) -> bool {
    let name = r.namespace@;
    let known = first_named(inp.all, name);
    let labels = match c.entry {
        Some(j) => ns_labels(inp.listed[j]),
        None => None,
    };
    let mesh = match c.mesh {
        Some(k) => Some(inp.meshes[k]),
        None => None,
    };
    let enrolled = match (c.entry, c.mesh) {
        (Some(j), Some(k)) => enrolled_on(inp.listed[j], k),
        _ => false,
    };
    &&& known is Some
    &&& record_built(
        r,
        inp.ctx,
        name,
        labels,
        mesh,
        enrolled,
        c.findings,
        hostnames,
        ingress_ns,
        inp.all[known->0].identity,
        inp.all[known->0].is_application_namespace,
        inp.all[known->0].is_ambient_control_plane_namespace,
    )
}

/// Sort key of a record: application name, then namespace.
pub open spec fn record_key(r: ApplicationAssessmentRecord) -> (Seq<char>, Seq<char>) {
    (r.application_name@, r.namespace@)
}

/// The records are the catalog's, one per namespace, in ascending order of their keys.
pub open spec fn catalog_records(
    apps: Seq<ApplicationAssessmentRecord>,
    inp: CatalogInputs,
    hostnames: Seq<(String, String)>,
    ingress_ns: Seq<Seq<char>>,
) -> bool {
    let m = catalog_choices(inp);
    &&& forall|i: int, j: int| 0 <= i < j < apps.len() ==> pair_lt(record_key(apps[i]), record_key(apps[j]))
    &&& forall|i: int|
        0 <= i < apps.len() ==> m.contains_key(#[trigger] apps[i].namespace@) && record_of_choice(
            apps[i],
            inp,
            m[apps[i].namespace@],
            hostnames,
            ingress_ns,
        )
    &&& forall|x: Seq<char>| m.contains_key(x) ==> exists|i: int| 0 <= i < apps.len() && #[trigger] apps[i].namespace@ == x
}

/// The catalog holds one record per namespace.
pub proof fn law_one_record_per_namespace(
    apps: Seq<ApplicationAssessmentRecord>,
    inp: CatalogInputs,
    hostnames: Seq<(String, String)>,
    ingress_ns: Seq<Seq<char>>,
)
    requires
        catalog_records(apps, inp, hostnames, ingress_ns),
    ensures
        forall|i: int, j: int| 0 <= i < j < apps.len() ==> (#[trigger] apps[i]).namespace@ != (#[trigger] apps[j]).namespace@,
{
    assert forall|i: int, j: int| 0 <= i < j < apps.len() implies (#[trigger] apps[i]).namespace@ != (#[trigger] apps[j]).namespace@ by {
        if apps[i].namespace@ == apps[j].namespace@ {
            assert(pair_lt(record_key(apps[i]), record_key(apps[j])));
            assert(record_of_choice(apps[i], inp, catalog_choices(inp)[apps[i].namespace@], hostnames, ingress_ns));
            assert(record_of_choice(apps[j], inp, catalog_choices(inp)[apps[j].namespace@], hostnames, ingress_ns));
            assert(record_key(apps[i]) == record_key(apps[j]));
            crate::sorting::lemma_pair_lt_irreflexive(record_key(apps[i]));
        }
    }
}

proof fn lemma_mesh_pass_eligible(inp: CatalogInputs, k: int, jn: int, m: Map<Seq<char>, CatalogChoice>)
    ensures
        forall|x: Seq<char>| #[trigger] mesh_pass(inp, k, jn, m).contains_key(x) ==> m.contains_key(x) || eligible_name(inp.all, x),
    decreases jn,
{
    if jn > 0 {
        lemma_mesh_pass_eligible(inp, k, jn - 1, m);
        let m1 = mesh_pass(inp, k, jn - 1, m);
        let n = inp.listed[jn - 1];
        assert forall|x: Seq<char>| #[trigger] mesh_pass(inp, k, jn, m).contains_key(x) implies m.contains_key(x) || eligible_name(inp.all, x) by {
            if x != n.name@ {
                assert(m1.contains_key(x));
            }
        }
    }
}

proof fn lemma_mesh_phase_eligible(inp: CatalogInputs, kn: int)
    ensures
        forall|x: Seq<char>| #[trigger] mesh_phase(inp, kn).contains_key(x) ==> eligible_name(inp.all, x),
    decreases kn,
{
    if kn > 0 {
        lemma_mesh_phase_eligible(inp, kn - 1);
        lemma_mesh_pass_eligible(inp, kn - 1, inp.listed.len() as int, mesh_phase(inp, kn - 1));
    }
}

proof fn lemma_sidecar_phase_eligible(inp: CatalogInputs, jn: int, m: Map<Seq<char>, CatalogChoice>)
    ensures
        forall|x: Seq<char>| #[trigger] sidecar_phase(inp, jn, m).contains_key(x) ==> m.contains_key(x) || eligible_name(inp.all, x),
    decreases jn,
{
    if jn > 0 {
        lemma_sidecar_phase_eligible(inp, jn - 1, m);
        let m1 = sidecar_phase(inp, jn - 1, m);
        let n = inp.listed[jn - 1];
        assert forall|x: Seq<char>| #[trigger] sidecar_phase(inp, jn, m).contains_key(x) implies m.contains_key(x) || eligible_name(inp.all, x) by {
            if x != n.name@ {
                assert(m1.contains_key(x));
            }
        }
    }
}

/// Every namespace the catalog lists is eligible: known, an application namespace, not an
/// ambient control plane, with application pods that are not mesh infrastructure.
pub proof fn lemma_catalog_choices_eligible(inp: CatalogInputs)
    ensures
        forall|x: Seq<char>| #[trigger] catalog_choices(inp).contains_key(x) ==> eligible_name(inp.all, x),
{
    lemma_mesh_phase_eligible(inp, inp.meshes.len() as int);
    let f = findings_phase(inp, mesh_phase(inp, inp.meshes.len() as int));
    lemma_sidecar_phase_eligible(inp, inp.listed.len() as int, f);
}

/// The catalog of a cluster: its records come in strictly ascending order of application
/// name, then namespace, one per namespace; each is for a known namespace whose pods run
/// applications (its workload count is that pod count, above zero); its readiness is its
/// overall score and its risk level is the one its summary and readiness give.
pub proof fn law_catalog_shape(
    apps: Seq<ApplicationAssessmentRecord>,
    inp: CatalogInputs,
    hostnames: Seq<(String, String)>,
    ingress_ns: Seq<Seq<char>>,
)
    requires
        catalog_records(apps, inp, hostnames, ingress_ns),
    ensures
        forall|i: int, j: int| 0 <= i < j < apps.len() ==> pair_lt(record_key(#[trigger] apps[i]), record_key(#[trigger] apps[j])),
        forall|i: int, j: int| 0 <= i < j < apps.len() ==> (#[trigger] apps[i]).namespace@ != (#[trigger] apps[j]).namespace@,
        forall|i: int|
            0 <= i < apps.len() ==> {
                let a = #[trigger] apps[i];
                &&& first_named(inp.all, a.namespace@) matches Some(k) && inp.all[k].identity matches Some(id)
                    && id.app_pod_count > 0 && a.workload_count == id.app_pod_count
                &&& a.readiness_pct == a.scores.overall
                &&& a.risk_level == spec_risk_level(a.summary.blockers, a.summary.warnings, a.readiness_pct)
            },
{
    law_one_record_per_namespace(apps, inp, hostnames, ingress_ns);
    lemma_catalog_choices_eligible(inp);
    assert forall|i: int| 0 <= i < apps.len() implies {
        let a = #[trigger] apps[i];
        &&& first_named(inp.all, a.namespace@) matches Some(k) && inp.all[k].identity matches Some(id)
            && id.app_pod_count > 0 && a.workload_count == id.app_pod_count
        &&& a.readiness_pct == a.scores.overall
        &&& a.risk_level == spec_risk_level(a.summary.blockers, a.summary.warnings, a.readiness_pct)
    } by {
        let a = apps[i];
        let m = catalog_choices(inp);
        assert(m.contains_key(a.namespace@));
        assert(record_of_choice(a, inp, m[a.namespace@], hostnames, ingress_ns));
        assert(eligible_name(inp.all, a.namespace@));
    }
}

/// Findings of each namespace they are attributed to.
pub open spec fn finding_groups(fs: Seq<FindingView>, ctx: RuleContext) -> Map<Seq<char>, Seq<FindingView>> {
    Map::new(
        |ns: Seq<char>| findings_for(fs, ctx, ns).len() > 0,
        |ns: Seq<char>| findings_for(fs, ctx, ns),
    )
}

/// Records built so far: one per name of `seen`, each from its choice in `m`.
pub open spec fn catalog_progress(
    recs: Seq<ApplicationAssessmentRecord>,
    seen: Seq<Seq<char>>,
    m: Map<Seq<char>, CatalogChoice>,
    inp: CatalogInputs,
    hostnames: Seq<(String, String)>,
    ingress_ns: Seq<Seq<char>>,
) -> bool {
    &&& recs.len() == seen.len()
    &&& seen.no_duplicates()
    &&& forall|x: Seq<char>| seen.contains(x) <==> m.contains_key(x)
    &&& forall|i: int|
        0 <= i < recs.len() ==> (#[trigger] recs[i]).namespace@ == seen[i] && record_of_choice(
            recs[i],
            inp,
            m[seen[i]],
            hostnames,
            ingress_ns,
        )
}

pub proof fn lemma_progress_push(
    recs: Seq<ApplicationAssessmentRecord>,
    seen: Seq<Seq<char>>,
    m: Map<Seq<char>, CatalogChoice>,
    inp: CatalogInputs,
    hostnames: Seq<(String, String)>,
    ingress_ns: Seq<Seq<char>>,
    r: ApplicationAssessmentRecord,
    c: CatalogChoice,
)
    requires
        catalog_progress(recs, seen, m, inp, hostnames, ingress_ns),
        !m.contains_key(r.namespace@),
        record_of_choice(r, inp, c, hostnames, ingress_ns),
    ensures
        catalog_progress(recs.push(r), seen.push(r.namespace@), m.insert(r.namespace@, c), inp, hostnames, ingress_ns),
{
    let x = r.namespace@;
    let s2 = seen.push(x);
    let m2 = m.insert(x, c);
    assert forall|y: Seq<char>| s2.contains(y) <==> m2.contains_key(y) by {
        if s2.contains(y) && y != x {
            let k = choose|k: int| 0 <= k < s2.len() && s2[k] == y;
            assert(seen[k] == y);
        }
        if m.contains_key(y) {
            assert(seen.contains(y));
            let k = choose|k: int| 0 <= k < seen.len() && seen[k] == y;
            assert(s2[k] == y);
        }
        if s2.contains(y) && y != x {
            assert(seen.contains(y));
        }
        if y == x {
            assert(s2[seen.len() as int] == y);
        }
    }
    assert(s2.no_duplicates()) by {
        assert forall|i: int, j: int| 0 <= i < s2.len() && 0 <= j < s2.len() && i != j implies s2[i] != s2[j] by {
            if i < seen.len() && j < seen.len() {
            } else if i < seen.len() {
                assert(seen.contains(seen[i]));
            } else {
                assert(seen.contains(seen[j]));
            }
        }
    }
    assert forall|i: int| 0 <= i < recs.push(r).len() implies (#[trigger] recs.push(r)[i]).namespace@ == s2[i] && record_of_choice(
        recs.push(r)[i],
        inp,
        m2[s2[i]],
        hostnames,
        ingress_ns,
    ) by {
        if i < recs.len() {
            assert(recs.push(r)[i] == recs[i]);
            assert(seen.contains(seen[i]));
            assert(m2[s2[i]] == m[seen[i]]);
        }
    }
}

pub proof fn lemma_first_named(s: Seq<NamespaceSnapshot>, x: Seq<char>)
    ensures
        match first_named(s, x) {
            Some(i) => 0 <= i < s.len() && s[i].name@ == x && forall|j: int| 0 <= j < i ==> s[j].name@ != x,
            None => forall|j: int| 0 <= j < s.len() ==> s[j].name@ != x,
        },
    decreases s.len(),
{
    if s.len() > 0 {
        lemma_first_named(s.drop_first(), x);
        assert forall|j: int| 0 <= j < s.len() - 1 implies s.drop_first()[j] == s[j + 1] by {}
        if s[0].name@ != x {
            match first_named(s.drop_first(), x) {
                Some(i) => {
                    assert forall|j: int| 0 <= j < i + 1 implies s[j].name@ != x by {
                        if j > 0 {
                            assert(s.drop_first()[j - 1].name@ != x);
                        }
                    }
                },
                None => {
                    assert forall|j: int| 0 <= j < s.len() implies s[j].name@ != x by {
                        if j > 0 {
                            assert(s.drop_first()[j - 1].name@ != x);
                        }
                    }
                },
            }
        }
    }
}

fn find_named(s: &Vec<NamespaceSnapshot>, x: &str) -> (r: Option<usize>)
    ensures
        match r {
            Some(i) => first_named(s@, x@) == Some(i as int) && i < s@.len(),
            None => first_named(s@, x@) is None,
        },
{
    proof {
        lemma_first_named(s@, x@);
    }
    let mut i: usize = 0;
    while i < s.len()
        invariant
            i <= s@.len(),
            forall|j: int| 0 <= j < i ==> s@[j].name@ != x@,
            match first_named(s@, x@) {
                Some(w) => 0 <= w < s@.len() && s@[w].name@ == x@ && forall|j: int| 0 <= j < w ==> s@[j].name@ != x@,
                None => forall|j: int| 0 <= j < s@.len() ==> s@[j].name@ != x@,
            },
        decreases s@.len() - i,
    {
        if str_eq(s[i].name.as_str(), x) {
            return Some(i);
        }
        i += 1;
    }
    None
}

/// What is known of a namespace name: its first listed entry, else its first other entry.
fn known_namespace<'a>(
    listed: &'a Vec<NamespaceSnapshot>,
    unlisted: &'a Vec<NamespaceSnapshot>,
    x: &str,
) -> (r: Option<&'a NamespaceSnapshot>)
    ensures
        match r {
            Some(n) => first_named(listed@ + unlisted@, x@) matches Some(i) && (listed@ + unlisted@)[i] == *n,
            None => first_named(listed@ + unlisted@, x@) is None,
        },
{
    let ghost all = listed@ + unlisted@;
    proof {
        lemma_first_named(all, x@);
        lemma_first_named(listed@, x@);
        lemma_first_named(unlisted@, x@);
    }
    match find_named(listed, x) {
        Some(i) => {
            assert(all[i as int] == listed@[i as int]);
            assert forall|j: int| 0 <= j < i implies all[j].name@ != x@ by {
                assert(all[j] == listed@[j]);
            }
            Some(&listed[i])
        },
        None => match find_named(unlisted, x) {
            Some(i) => {
                assert(all[listed@.len() + i] == unlisted@[i as int]);
                assert forall|j: int| 0 <= j < listed@.len() + i implies all[j].name@ != x@ by {
                    if j < listed@.len() {
                        assert(all[j] == listed@[j]);
                    } else {
                        assert(all[j] == unlisted@[j - listed@.len()]);
                    }
                }
                Some(&unlisted[i])
            },
            None => {
                assert forall|j: int| 0 <= j < all.len() implies all[j].name@ != x@ by {
                    if j < listed@.len() {
                        assert(all[j] == listed@[j]);
                    } else {
                        assert(all[j] == unlisted@[j - listed@.len()]);
                    }
                }
                None
            },
        },
    }
}

fn eligible_exec(n: &NamespaceSnapshot) -> (r: bool)
    ensures
        r == eligible_entry(*n),
{
    n.is_application_namespace && !n.is_ambient_control_plane_namespace && match &n.identity {
        Some(id) => !id.is_mesh_infrastructure && id.app_pod_count != 0,
        None => false,
    }
}

fn eligible_name_exec(listed: &Vec<NamespaceSnapshot>, unlisted: &Vec<NamespaceSnapshot>, x: &str) -> (r: bool)
    ensures
        r == eligible_name(listed@ + unlisted@, x@),
{
    match known_namespace(listed, unlisted, x) {
        Some(n) => eligible_exec(n),
        None => false,
    }
}

fn labels_of(n: &NamespaceSnapshot) -> (r: Option<&Labels>)
    ensures
        crate::compute::opt_labels(r) == ns_labels(*n),
{
    match &n.labels {
        Some(l) => Some(l),
        None => None,
    }
}

fn belongs_exec(n: &NamespaceSnapshot, meshes: &Vec<MeshInstance>, k: usize) -> (r: bool)
    requires
        k < meshes@.len(),
    ensures
        r == belongs_k(*n, meshes@, k as int),
{
    let enrolled = k < n.enrolled_on_mesh.len() && n.enrolled_on_mesh[k];
    crate::compute::namespace_belongs_to_mesh(labels_of(n), &meshes[k], enrolled)
}

fn first_mesh_exec(n: &NamespaceSnapshot, meshes: &Vec<MeshInstance>) -> (r: Option<usize>)
    ensures
        match r {
            Some(k) => first_mesh_from(*n, meshes@, 0) == Some(k as int) && k < meshes@.len(),
            None => first_mesh_from(*n, meshes@, 0) is None,
        },
{
    let mut k: usize = 0;
    while k < meshes.len()
        invariant
            k <= meshes@.len(),
            first_mesh_from(*n, meshes@, 0) == first_mesh_from(*n, meshes@, k as int),
        decreases meshes@.len() - k,
    {
        if belongs_exec(n, meshes, k) {
            return Some(k);
        }
        k += 1;
    }
    None
}

fn has_sidecar_exec(ws: &Vec<WorkloadContext>, x: &str) -> (r: bool)
    ensures
        r == has_sidecar(ws@, x@),
{
    let mut i: usize = 0;
    while i < ws.len()
        invariant
            i <= ws@.len(),
            forall|j: int| 0 <= j < i ==> !(ws@[j].namespace@ == x@ && ws@[j].has_istio_sidecar),
        decreases ws@.len() - i,
    {
        if str_eq(ws[i].namespace.as_str(), x) && ws[i].has_istio_sidecar {
            return true;
        }
        i += 1;
    }
    false
}

fn contains_name(seen: &Vec<String>, x: &str) -> (r: bool)
    ensures
        r == strings_view(seen@).contains(x@),
{
    crate::refs::vec_contains_str(seen, x)
}

fn group_findings<'a>(by_ns: &'a NamespaceFindings, name: &str, empty: &'a Vec<Finding>) -> (r: &'a Vec<Finding>)
    requires
        findings_view(empty@) == Seq::<FindingView>::empty(),
    ensures
        findings_view(r@) == group_of_findings(by_ns@, name@),
        r@.len() == findings_view(r@).len(),
{
    match by_ns.get(name) {
        Some(v) => v,
        None => empty,
    }
}

/// The catalog inputs of a cluster.
pub open spec fn catalog_inputs(
    ctx: RuleContext,
    all_findings: Seq<Finding>,
    namespaces: Seq<NamespaceSnapshot>,
    unlisted: Seq<NamespaceSnapshot>,
    meshes: Seq<MeshInstance>,
) -> CatalogInputs {
    CatalogInputs {
        listed: namespaces,
        all: namespaces + unlisted,
        meshes,
        groups: finding_groups(findings_view(all_findings), ctx),
        ctx,
    }
}

/// Catalog after the findings phase over the first `e` grouped namespaces.
pub open spec fn findings_phase_upto(
    inp: CatalogInputs,
    m: Map<Seq<char>, CatalogChoice>,
    keys: Seq<Seq<char>>,
) -> Map<Seq<char>, CatalogChoice> {
    Map::new(
        |x: Seq<char>| m.contains_key(x) || (keys.contains(x) && eligible_name(inp.all, x)),
        |x: Seq<char>| if m.contains_key(x) { m[x] } else { findings_choice(inp, x) },
    )
}

/// Keys of the first `e` entries of a grouping.
pub open spec fn group_keys(entries: Seq<(String, Vec<Finding>)>, e: int) -> Seq<Seq<char>> {
    entries.take(e).map_values(|p: (String, Vec<Finding>)| p.0@)
}

#[verifier::rlimit(40)]
fn add_record(
    recs: &mut Vec<ApplicationAssessmentRecord>,
    seen: &mut Vec<String>,
    ctx: &RuleContext,
    name: &String,
    labels: Option<&Labels>,
    mesh: Option<&MeshInstance>,
    enrolled: bool,
    findings: &Vec<Finding>,
    hostnames_by_ns: &HostnameIndex,
    ingress_ns: &Vec<String>,
    known: &NamespaceSnapshot,
    Ghost(m): Ghost<Map<Seq<char>, CatalogChoice>>,
    Ghost(inp): Ghost<CatalogInputs>,
    Ghost(c): Ghost<CatalogChoice>,
)
    requires
        catalog_progress(old(recs)@, strings_view(old(seen)@), m, inp, hostnames_by_ns.pairs@, strings_view(ingress_ns@)),
        !m.contains_key(name@),
        first_named(inp.all, name@) matches Some(i) && inp.all[i] == *known,
        inp.ctx == *ctx,
        findings_view(findings@) == c.findings,
        crate::compute::opt_labels(labels) == match c.entry {
            Some(j) => ns_labels(inp.listed[j]),
            None => None,
        },
        opt_mesh(mesh) == match c.mesh {
            Some(k) => Some(inp.meshes[k]),
            None => None,
        },
        enrolled == match (c.entry, c.mesh) {
            (Some(j), Some(k)) => enrolled_on(inp.listed[j], k),
            _ => false,
        },
        findings@.len() + 2 * ctx.workloads@.len() + 5 <= u32::MAX,
    ensures
        catalog_progress(
            final(recs)@,
            strings_view(final(seen)@),
            m.insert(name@, c),
            inp,
            hostnames_by_ns.pairs@,
            strings_view(ingress_ns@),
        ),
{
    let identity = match &known.identity {
        Some(i) => Some(i),
        None => None,
    };
    let rec = build_app_record(
        ctx,
        name.as_str(),
        labels,
        mesh,
        enrolled,
        findings,
        hostnames_by_ns,
        ingress_ns,
        identity,
        known.is_application_namespace,
        known.is_ambient_control_plane_namespace,
    );
    proof {
        assert(opt_identity(identity) == known.identity);
        assert(record_of_choice(rec, inp, c, hostnames_by_ns.pairs@, strings_view(ingress_ns@)));
        lemma_progress_push(
            recs@,
            strings_view(seen@),
            m,
            inp,
            hostnames_by_ns.pairs@,
            strings_view(ingress_ns@),
            rec,
            c,
        );
    }
    let ghost sb = seen@;
    seen.push(name.clone());
    assert(strings_view(seen@) =~= strings_view(sb).push(name@));
    recs.push(rec);
}

/// Assessment of every application namespace of a cluster: one record per namespace of the
/// catalog (see `catalog_choices`), in ascending order of application name then namespace,
/// with the cluster's scores, summary and unattributed findings.
pub fn build_cluster_assessment(
    cluster_ref: &str,
    ctx: &RuleContext,
    all_findings: &[Finding],
    namespaces: &Vec<NamespaceSnapshot>,
    unlisted: &Vec<NamespaceSnapshot>,
    meshes: &Vec<MeshInstance>,
    hostnames_by_ns: &HostnameIndex,
    ingress_ns: &Vec<String>,
) -> (r: crate::catalog::ClusterAssessmentRun)
    requires
        all_findings@.len() * finding_fanout(*ctx) + 2 * ctx.workloads@.len() + 5 <= u32::MAX,
    ensures
        r.cluster_ref@ == cluster_ref@,
        catalog_records(
            r.applications@,
            catalog_inputs(*ctx, all_findings@, namespaces@, unlisted@, meshes@),
            hostnames_by_ns.pairs@,
            strings_view(ingress_ns@),
        ),
        r.cluster_scores.readiness == spec_scores(all_findings@).0,
        r.cluster_scores.sidecar_dependency == spec_scores(all_findings@).1,
        r.cluster_scores.traffic_compatibility == spec_scores(all_findings@).2,
        r.cluster_scores.overall == spec_scores(all_findings@).3,
        r.cluster_summary.blockers == count_severity(all_findings@, FindingSeverity::Blocker),
        r.cluster_summary.warnings == count_severity(all_findings@, FindingSeverity::Warning),
        r.cluster_summary.info == count_severity(all_findings@, FindingSeverity::Info),
        findings_view(r.cluster_findings@) == cluster_only(findings_view(all_findings@), *ctx),
{
    let (by_ns, cluster_findings) = partition_findings_by_namespace(all_findings, ctx);
    let ghost inp = catalog_inputs(*ctx, all_findings@, namespaces@, unlisted@, meshes@);
    let ghost hs = hostnames_by_ns.pairs@;
    let ghost ing = strings_view(ingress_ns@);
    let ghost fv = findings_view(all_findings@);
    proof {
        assert(by_ns@ =~= inp.groups);
        assert forall|x: Seq<char>| inp.groups.contains_key(x) implies (#[trigger] inp.groups[x]).len() + 2
            * ctx.workloads@.len() + 5 <= u32::MAX by {
            lemma_findings_for_len(fv, *ctx, x);
            let b = finding_fanout(*ctx);
            assert(fv.len() * b == all_findings@.len() * b);
        }
    }
    let empty: Vec<Finding> = Vec::new();
    assert(findings_view(empty@) =~= Seq::<FindingView>::empty());
    proof {
        let b = finding_fanout(*ctx);
        let n = all_findings@.len() as int;
        assert(n <= n * b) by (nonlinear_arith)
            requires
                b >= 1,
                n >= 0,
        ;
    }
    let mut recs: Vec<ApplicationAssessmentRecord> = Vec::new();
    let mut seen: Vec<String> = Vec::new();
    assert(strings_view(seen@) =~= Seq::<Seq<char>>::empty());
    // Each eligible namespace on the first mesh that takes it.
    let mut k: usize = 0;
    while k < meshes.len()
        invariant
            by_ns@ == inp.groups,
            hs == hostnames_by_ns.pairs@,
            ing == strings_view(ingress_ns@),
            inp == catalog_inputs(*ctx, all_findings@, namespaces@, unlisted@, meshes@),
            findings_view(empty@) == Seq::<FindingView>::empty(),
            forall|x: Seq<char>| inp.groups.contains_key(x) ==> (#[trigger] inp.groups[x]).len() + 2
                * ctx.workloads@.len() + 5 <= u32::MAX,
            k <= meshes@.len(),
            2 * ctx.workloads@.len() + 5 <= u32::MAX,
            catalog_progress(recs@, strings_view(seen@), mesh_phase(inp, k as int), inp, hs, ing),
        decreases meshes@.len() - k,
    {
        let ghost base = mesh_phase(inp, k as int);
        let mut j: usize = 0;
        while j < namespaces.len()
            invariant
                by_ns@ == inp.groups,
                hs == hostnames_by_ns.pairs@,
                ing == strings_view(ingress_ns@),
            hs == hostnames_by_ns.pairs@,
            ing == strings_view(ingress_ns@),
                inp == catalog_inputs(*ctx, all_findings@, namespaces@, unlisted@, meshes@),
                findings_view(empty@) == Seq::<FindingView>::empty(),
                forall|x: Seq<char>| inp.groups.contains_key(x) ==> (#[trigger] inp.groups[x]).len() + 2
                    * ctx.workloads@.len() + 5 <= u32::MAX,
                k < meshes@.len(),
                2 * ctx.workloads@.len() + 5 <= u32::MAX,
                j <= namespaces@.len(),
                base == mesh_phase(inp, k as int),
                catalog_progress(recs@, strings_view(seen@), mesh_pass(inp, k as int, j as int, base), inp, hs, ing),
            decreases namespaces@.len() - j,
        {
            let n = &namespaces[j];
            let ghost mj = mesh_pass(inp, k as int, j as int, base);
            if eligible_name_exec(namespaces, unlisted, n.name.as_str()) && belongs_exec(n, meshes, k) && !contains_name(
                &seen,
                n.name.as_str(),
            ) {
                let known = known_namespace(namespaces, unlisted, n.name.as_str());
                match known {
                    Some(kn) => {
                        let findings = group_findings(&by_ns, n.name.as_str(), &empty);
                        proof {
                            if inp.groups.contains_key(n.name@) {
                                assert(inp.groups[n.name@].len() + 2 * ctx.workloads@.len() + 5 <= u32::MAX);
                            }
                        }
                        let enrolled = k < n.enrolled_on_mesh.len() && n.enrolled_on_mesh[k];
                        let ghost c = CatalogChoice {
                            entry: Some(j as int),
                            mesh: Some(k as int),
                            findings: group_of_findings(inp.groups, n.name@),
                        };
                        add_record(
                            &mut recs,
                            &mut seen,
                            ctx,
                            &n.name,
                            labels_of(n),
                            Some(&meshes[k]),
                            enrolled,
                            findings,
                            hostnames_by_ns,
                            ingress_ns,
                            kn,
                            Ghost(mj),
                            Ghost(inp),
                            Ghost(c),
                        );
                    },
                    None => {},
                }
            }
            j += 1;
        }
        k += 1;
    }
    // Eligible namespaces with findings that no mesh took.
    let ghost m1 = mesh_phase(inp, meshes@.len() as int);
    let ghost es = by_ns.entries@;
    proof {
        assert(findings_phase_upto(inp, m1, group_keys(es, 0)) =~= m1);
    }
    let mut e: usize = 0;
    while e < by_ns.entries.len()
        invariant
            by_ns@ == inp.groups,
            hs == hostnames_by_ns.pairs@,
            ing == strings_view(ingress_ns@),
            es == by_ns.entries@,
            inp == catalog_inputs(*ctx, all_findings@, namespaces@, unlisted@, meshes@),
            forall|x: Seq<char>| inp.groups.contains_key(x) ==> (#[trigger] inp.groups[x]).len() + 2
                * ctx.workloads@.len() + 5 <= u32::MAX,
            e <= es.len(),
            m1 == mesh_phase(inp, meshes@.len() as int),
            catalog_progress(recs@, strings_view(seen@), findings_phase_upto(inp, m1, group_keys(es, e as int)), inp, hs, ing),
        decreases es.len() - e,
    {
        let ghost me = findings_phase_upto(inp, m1, group_keys(es, e as int));
        let name = &by_ns.entries[e].0;
        let ghost x = name@;
        proof {
            assert(group_keys(es, e + 1) =~= group_keys(es, e as int).push(x));
            crate::attribution::lemma_group_lookup(es, x);
            let k0 = group_keys(es, e as int);
            let k1 = group_keys(es, e + 1);
            assert forall|y: Seq<char>| k1.contains(y) <==> (k0.contains(y) || y == x) by {
                if k1.contains(y) {
                    let t = choose|t: int| 0 <= t < k1.len() && k1[t] == y;
                    if t < k0.len() {
                        assert(k0[t] == y);
                    }
                }
                if k0.contains(y) {
                    let t = choose|t: int| 0 <= t < k0.len() && k0[t] == y;
                    assert(k1[t] == y);
                }
                if y == x {
                    assert(k1[k0.len() as int] == y);
                }
            }
        }
        if !contains_name(&seen, name.as_str()) && eligible_name_exec(namespaces, unlisted, name.as_str()) {
            proof {
                assert forall|t: int| 0 <= t < e implies es[t].0@ != x by {
                    if es[t].0@ == x {
                        assert(group_keys(es, e as int)[t] == x);
                        assert(group_keys(es, e as int).contains(x));
                    }
                }
                assert(crate::attribution::first_group(es, x, e as int));
                assert(inp.groups.contains_key(x));
            }
            let known = known_namespace(namespaces, unlisted, name.as_str());
            match known {
                Some(kn) => {
                    let listed_at = find_named(namespaces, name.as_str());
                    let (labels, mesh_at) = match listed_at {
                        Some(j) => (labels_of(&namespaces[j]), first_mesh_exec(&namespaces[j], meshes)),
                        None => (None, None),
                    };
                    let (mesh, enrolled) = match (listed_at, mesh_at) {
                        (Some(j), Some(k)) => (
                            Some(&meshes[k]),
                            k < namespaces[j].enrolled_on_mesh.len() && namespaces[j].enrolled_on_mesh[k],
                        ),
                        _ => (None, false),
                    };
                    let ghost c = findings_choice(inp, x);
                    add_record(
                        &mut recs,
                        &mut seen,
                        ctx,
                        name,
                        labels,
                        mesh,
                        enrolled,
                        &by_ns.entries[e].1,
                        hostnames_by_ns,
                        ingress_ns,
                        kn,
                        Ghost(me),
                        Ghost(inp),
                        Ghost(c),
                    );
                    proof {
                        assert(me.insert(x, c) =~= findings_phase_upto(inp, m1, group_keys(es, e + 1)));
                    }
                },
                None => {},
            }
        } else {
            proof {
                assert(me =~= findings_phase_upto(inp, m1, group_keys(es, e + 1))) by {
                    if strings_view(seen@).contains(x) {
                        assert(me.contains_key(x));
                    }
                }
            }
        }
        e += 1;
    }
    proof {
        assert forall|x: Seq<char>| group_keys(es, es.len() as int).contains(x) <==> inp.groups.contains_key(x) by {
            crate::attribution::lemma_group_lookup(es, x);
            assert(es.take(es.len() as int) =~= es);
            if inp.groups.contains_key(x) {
                let t = choose|t: int| 0 <= t < es.len() && es[t].0@ == x;
                assert(group_keys(es, es.len() as int)[t] == x);
            }
            if group_keys(es, es.len() as int).contains(x) {
                let t = choose|t: int| 0 <= t < group_keys(es, es.len() as int).len() && group_keys(es, es.len() as int)[t] == x;
                assert(es[t].0@ == x);
            }
        }
        assert(findings_phase_upto(inp, m1, group_keys(es, es.len() as int)) =~= findings_phase(inp, m1));
    }
    // Eligible namespaces with sidecar workloads that have neither a mesh nor findings.
    let ghost m2 = findings_phase(inp, m1);
    let mut j: usize = 0;
    while j < namespaces.len()
        invariant
            by_ns@ == inp.groups,
            hs == hostnames_by_ns.pairs@,
            ing == strings_view(ingress_ns@),
            inp == catalog_inputs(*ctx, all_findings@, namespaces@, unlisted@, meshes@),
            findings_view(empty@) == Seq::<FindingView>::empty(),
            forall|x: Seq<char>| inp.groups.contains_key(x) ==> (#[trigger] inp.groups[x]).len() + 2
                * ctx.workloads@.len() + 5 <= u32::MAX,
            j <= namespaces@.len(),
            2 * ctx.workloads@.len() + 5 <= u32::MAX,
            m2 == findings_phase(inp, mesh_phase(inp, meshes@.len() as int)),
            catalog_progress(recs@, strings_view(seen@), sidecar_phase(inp, j as int, m2), inp, hs, ing),
        decreases namespaces@.len() - j,
    {
        let n = &namespaces[j];
        let ghost mj = sidecar_phase(inp, j as int, m2);
        if !contains_name(&seen, n.name.as_str()) && eligible_name_exec(namespaces, unlisted, n.name.as_str())
            && has_sidecar_exec(&ctx.workloads, n.name.as_str()) {
            let known = known_namespace(namespaces, unlisted, n.name.as_str());
            match known {
                Some(kn) => {
                    let findings = group_findings(&by_ns, n.name.as_str(), &empty);
                    proof {
                        if inp.groups.contains_key(n.name@) {
                            assert(inp.groups[n.name@].len() + 2 * ctx.workloads@.len() + 5 <= u32::MAX);
                        }
                    }
                    let mesh_at = first_mesh_exec(n, meshes);
                    let (mesh, enrolled) = match mesh_at {
                        Some(k) => (Some(&meshes[k]), k < n.enrolled_on_mesh.len() && n.enrolled_on_mesh[k]),
                        None => (None, false),
                    };
                    let ghost c = CatalogChoice {
                        entry: Some(j as int),
                        mesh: first_mesh_from(*n, meshes@, 0),
                        findings: group_of_findings(inp.groups, n.name@),
                    };
                    add_record(
                        &mut recs,
                        &mut seen,
                        ctx,
                        &n.name,
                        labels_of(n),
                        mesh,
                        enrolled,
                        findings,
                        hostnames_by_ns,
                        ingress_ns,
                        kn,
                        Ghost(mj),
                        Ghost(inp),
                        Ghost(c),
                    );
                },
                None => {},
            }
        }
        j += 1;
    }
    let applications = sort_records(recs, Ghost(seen@), Ghost(catalog_choices(inp)), Ghost(inp), Ghost(hs), Ghost(ing));
    crate::catalog::ClusterAssessmentRun {
        cluster_ref: owned(cluster_ref),
        applications,
        cluster_scores: compute_scores(all_findings),
        cluster_summary: FindingSummary::from_findings(all_findings),
        cluster_findings,
    }
}

fn sort_records(
    recs: Vec<ApplicationAssessmentRecord>,
    Ghost(seen): Ghost<Seq<String>>,
    Ghost(m): Ghost<Map<Seq<char>, CatalogChoice>>,
    Ghost(inp): Ghost<CatalogInputs>,
    Ghost(hs): Ghost<Seq<(String, String)>>,
    Ghost(ing): Ghost<Seq<Seq<char>>>,
) -> (r: Vec<ApplicationAssessmentRecord>)
    requires
        catalog_progress(recs@, strings_view(seen), m, inp, hs, ing),
        m == catalog_choices(inp),
    ensures
        catalog_records(r@, inp, hs, ing),
{
    let ghost sv = strings_view(seen);
    let mut keys: Vec<(String, String)> = Vec::new();
    let mut j: usize = 0;
    while j < recs.len()
        invariant
            j <= recs@.len(),
            keys@.len() == j,
            forall|q: int| 0 <= q < j ==> (#[trigger] keys@[q]).0@ == record_key(recs@[q]).0 && keys@[q].1@ == record_key(recs@[q]).1,
        decreases recs@.len() - j,
    {
        keys.push((recs[j].application_name.clone(), recs[j].namespace.clone()));
        j += 1;
    }
    let ghost kv = crate::sorting::keys_view(keys@);
    assert(kv.len() == recs@.len());
    assert forall|q: int| 0 <= q < kv.len() implies #[trigger] kv[q] == record_key(recs@[q]) by {}
    let ord = crate::sorting::stable_order(&keys);
    let ghost orig = recs@;
    let mut slots: Vec<Option<ApplicationAssessmentRecord>> = Vec::new();
    let mut rest = recs;
    while rest.len() > 0
        invariant
            slots@.len() + rest@.len() == orig.len(),
            forall|q: int| 0 <= q < slots@.len() ==> (#[trigger] slots@[q]) == Some(orig[q]),
            forall|q: int| 0 <= q < rest@.len() ==> (#[trigger] rest@[q]) == orig[slots@.len() + q],
        decreases rest@.len(),
    {
        let x = rest.remove(0);
        slots.push(Some(x));
    }
    let mut out: Vec<ApplicationAssessmentRecord> = Vec::new();
    let mut q: usize = 0;
    while q < ord.len()
        invariant
            crate::sorting::stable_sorted(kv, ord@),
            kv.len() == orig.len(),
            slots@.len() == orig.len(),
            q <= ord@.len(),
            out@.len() == q,
            forall|t: int| 0 <= t < q ==> #[trigger] out@[t] == orig[ord@[t] as int],
            forall|t: int| q <= t < ord@.len() ==> #[trigger] slots@[ord@[t] as int] == Some(orig[ord@[t] as int]),
        decreases ord@.len() - q,
    {
        let t = ord[q];
        assert(slots@[t as int] == Some(orig[t as int]));
        let x = slots.remove(t);
        slots.insert(t, None);
        proof {
            assert forall|u: int| q + 1 <= u < ord@.len() implies #[trigger] slots@[ord@[u] as int] == Some(orig[ord@[u] as int]) by {
                assert(ord@[u] != ord@[q as int]);
            }
        }
        match x {
            Some(rec) => {
                out.push(rec);
            },
            None => {
                assert(false);
            },
        }
        q += 1;
    }
    proof {
        let o = out@;
        assert forall|i: int, j: int| 0 <= i < j < o.len() implies pair_lt(record_key(o[i]), record_key(o[j])) by {
            let a = ord@[i] as int;
            let b = ord@[j] as int;
            assert(a != b);
            assert(orig[a].namespace@ == sv[a]);
            assert(orig[b].namespace@ == sv[b]);
            assert(sv[a] != sv[b]);
            crate::sorting::lemma_pair_lt_total(kv[a], kv[b]);
        }
        assert forall|i: int| 0 <= i < o.len() implies m.contains_key(#[trigger] o[i].namespace@) && record_of_choice(
            o[i],
            inp,
            m[o[i].namespace@],
            hs,
            ing,
        ) by {
            let a = ord@[i] as int;
            assert(sv.contains(sv[a]));
        }
        assert forall|x: Seq<char>| m.contains_key(x) implies exists|i: int| 0 <= i < o.len() && #[trigger] o[i].namespace@ == x by {
            assert(sv.contains(x));
            let a = choose|a: int| 0 <= a < sv.len() && sv[a] == x;
            crate::attribution::lemma_permutation_onto(ord@, kv.len() as int, a);
            let i = choose|i: int| 0 <= i < ord@.len() && ord@[i] == a;
            assert(o[i].namespace@ == x);
        }
    }
    out
}

// ---------------------------------------------------------------------------
// Inventories from cluster objects
// ---------------------------------------------------------------------------

/// A VirtualService or HTTPRoute: its namespace and the entries of its host list, each a
/// text or, for an entry that is not a text, nothing.
#[derive(Debug)]
pub struct RoutingObject {
    pub namespace: Option<String>,
    pub hosts: Option<Vec<Option<String>>>,
}

/// `(namespace, host)` of each text host entry of the first `n` entries.
pub open spec fn host_pairs(ns: Seq<char>, hosts: Seq<Option<String>>) -> Seq<(Seq<char>, Seq<char>)>
    decreases hosts.len(),
{
    if hosts.len() == 0 {
        Seq::empty()
    } else {
        let p = host_pairs(ns, hosts.drop_last());
        match hosts.last() {
            Some(h) => p.push((ns, h@)),
            None => p,
        }
    }
}

/// Namespace of a routing object; the empty text when it has none.
pub open spec fn object_namespace(o: RoutingObject) -> Seq<char> {
    match o.namespace {
        Some(n) => n@,
        None => Seq::empty(),
    }
}

/// `(namespace, host)` of every text host of a list of routing objects, in order.
pub open spec fn routing_pairs(objs: Seq<RoutingObject>) -> Seq<(Seq<char>, Seq<char>)>
    decreases objs.len(),
{
    if objs.len() == 0 {
        Seq::empty()
    } else {
        routing_pairs(objs.drop_last()) + match objs.last().hosts {
            Some(hs) => host_pairs(object_namespace(objs.last()), hs@),
            None => Seq::empty(),
        }
    }
}

fn push_routing_pairs(items: &mut Vec<(String, String)>, objs: &Vec<RoutingObject>)
    ensures
        crate::sorting::keys_view(final(items)@) == crate::sorting::keys_view(old(items)@) + routing_pairs(objs@),
{
    let mut i: usize = 0;
    while i < objs.len()
        invariant
            i <= objs@.len(),
            crate::sorting::keys_view(items@) == crate::sorting::keys_view(old(items)@) + routing_pairs(objs@.take(i as int)),
        decreases objs@.len() - i,
    {
        assert(objs@.take(i + 1).drop_last() =~= objs@.take(i as int));
        let o = &objs[i];
        let ns = match &o.namespace {
            Some(n) => n.clone(),
            None => String::new(),
        };
        let ghost base = crate::sorting::keys_view(items@);
        match &o.hosts {
            Some(hs) => {
                let mut j: usize = 0;
                while j < hs.len()
                    invariant
                        j <= hs@.len(),
                        ns@ == object_namespace(*o),
                        crate::sorting::keys_view(items@) == base + host_pairs(ns@, hs@.take(j as int)),
                    decreases hs@.len() - j,
                {
                    assert(hs@.take(j + 1).drop_last() =~= hs@.take(j as int));
                    match &hs[j] {
                        Some(h) => {
                            let ghost before = items@;
                            items.push((ns.clone(), h.clone()));
                            assert(crate::sorting::keys_view(items@) =~= crate::sorting::keys_view(before).push((ns@, h@)));
                        },
                        None => {},
                    }
                    j += 1;
                }
                assert(hs@.take(hs@.len() as int) =~= hs@);
            },
            None => {},
        }
        assert(crate::sorting::keys_view(items@) =~= crate::sorting::keys_view(old(items)@) + routing_pairs(objs@.take(i + 1)));
        i += 1;
    }
    assert(objs@.take(objs@.len() as int) =~= objs@);
}

/// Hostnames per namespace from the `spec.hosts` of VirtualServices and the
/// `spec.hostnames` of HTTPRoutes: each `(namespace, hostname)` once, in ascending order.
pub fn hostnames_from_istio_objects(virtual_services: &Vec<RoutingObject>, http_routes: &Vec<RoutingObject>) -> (r: HostnameIndex)
    ensures
        crate::deep_analysis::sorted_pairs_of(
            crate::sorting::keys_view(r.pairs@),
            routing_pairs(virtual_services@) + routing_pairs(http_routes@),
        ),
{
    let mut items: Vec<(String, String)> = Vec::new();
    push_routing_pairs(&mut items, virtual_services);
    push_routing_pairs(&mut items, http_routes);
    HostnameIndex { pairs: crate::deep_analysis::sorted_distinct_pairs(&items) }
}

/// A pod: its namespace and labels.
#[derive(Debug)]
pub struct PodInfo {
    pub namespace: Option<String>,
    pub labels: Option<Labels>,
}

/// Labels of an ingress gateway pod: `app` names an ingress gateway, or `istio` is
/// `ingressgateway` or mentions `ingress`.
pub open spec fn is_gateway_labels(labels: Option<Map<Seq<char>, Seq<char>>>) -> bool {
    match labels {
        Some(m) => (m.contains_key("app"@) && (crate::text::has_infix(m["app"@], "ingressgateway"@) || m["app"@]
            == "istio-ingressgateway"@)) || (m.contains_key("istio"@) && (m["istio"@] == "ingressgateway"@
            || crate::text::has_infix(m["istio"@], "ingress"@))),
        None => false,
    }
}

/// Namespaces of the ingress gateway pods.
pub open spec fn gateway_namespaces(pods: Seq<PodInfo>) -> Seq<Seq<char>>
    decreases pods.len(),
{
    if pods.len() == 0 {
        Seq::empty()
    } else {
        let p = gateway_namespaces(pods.drop_last());
        let pod = pods.last();
        if is_gateway_labels(crate::model::opt_map_labels(pod.labels)) && pod.namespace is Some {
            p.push(pod.namespace->0@)
        } else {
            p
        }
    }
}

/// Namespaces running ingress gateway pods, each once.
pub fn ingress_gateway_namespaces_from_pods(pods: &Vec<PodInfo>) -> (r: Vec<String>)
    ensures
        strings_view(r@).no_duplicates(),
        forall|x: Seq<char>| strings_view(r@).contains(x) <==> gateway_namespaces(pods@).contains(x),
{
    let mut out: Vec<String> = Vec::new();
    let mut i: usize = 0;
    while i < pods.len()
        invariant
            i <= pods@.len(),
            strings_view(out@).no_duplicates(),
            forall|x: Seq<char>| strings_view(out@).contains(x) <==> gateway_namespaces(pods@.take(i as int)).contains(x),
        decreases pods@.len() - i,
    {
        assert(pods@.take(i + 1).drop_last() =~= pods@.take(i as int));
        let pod = &pods[i];
        let gateway = match &pod.labels {
            Some(l) => {
                let by_app = match l.get("app") {
                    Some(v) => crate::text::contains(v.as_str(), "ingressgateway") || str_eq(v.as_str(), "istio-ingressgateway"),
                    None => false,
                };
                let by_istio = match l.get("istio") {
                    Some(v) => str_eq(v.as_str(), "ingressgateway") || crate::text::contains(v.as_str(), "ingress"),
                    None => false,
                };
                by_app || by_istio
            },
            None => false,
        };
        assert(gateway == is_gateway_labels(crate::model::opt_map_labels(pod.labels)));
        let ghost prev = gateway_namespaces(pods@.take(i as int));
        let ghost next = gateway_namespaces(pods@.take(i + 1));
        match &pod.namespace {
            Some(ns) => {
                if gateway && !crate::refs::vec_contains_str(&out, ns.as_str()) {
                    let ghost before = out@;
                    out.push(ns.clone());
                    proof {
                        assert(strings_view(out@) =~= strings_view(before).push(ns@));
                        assert(next =~= prev.push(ns@));
                        let ov = strings_view(out@);
                        let bv = strings_view(before);
                        assert forall|x: Seq<char>| ov.contains(x) <==> next.contains(x) by {
                            assert(bv.contains(x) <==> prev.contains(x));
                            if x == ns@ {
                                assert(next[prev.len() as int] == x);
                                assert(ov[bv.len() as int] == x);
                            } else {
                                if ov.contains(x) {
                                    let k = choose|k: int| 0 <= k < ov.len() && ov[k] == x;
                                    assert(k < bv.len());
                                    assert(bv[k] == x);
                                    assert(bv.contains(x));
                                    let k2 = choose|k2: int| 0 <= k2 < prev.len() && prev[k2] == x;
                                    assert(next[k2] == x);
                                }
                                if next.contains(x) {
                                    let k = choose|k: int| 0 <= k < next.len() && next[k] == x;
                                    assert(k < prev.len());
                                    assert(prev[k] == x);
                                    assert(prev.contains(x));
                                    let k2 = choose|k2: int| 0 <= k2 < bv.len() && bv[k2] == x;
                                    assert(ov[k2] == x);
                                }
                            }
                        }
                        assert(ov.no_duplicates()) by {
                            assert forall|p: int, q: int| 0 <= p < ov.len() && 0 <= q < ov.len() && p != q implies ov[p] != ov[q] by {
                                if p < bv.len() && q < bv.len() {
                                } else if p < bv.len() {
                                    assert(bv.contains(bv[p]));
                                } else {
                                    assert(bv.contains(bv[q]));
                                }
                            }
                        }
                    }
                } else if gateway {
                    proof {
                        assert(next =~= prev.push(ns@));
                        assert(strings_view(out@).contains(ns@));
                        assert forall|x: Seq<char>| strings_view(out@).contains(x) <==> next.contains(x) by {
                            assert(strings_view(out@).contains(x) <==> prev.contains(x));
                            if next.contains(x) && x != ns@ {
                                let k = choose|k: int| 0 <= k < next.len() && next[k] == x;
                                assert(prev[k] == x);
                            }
                            if prev.contains(x) {
                                let k = choose|k: int| 0 <= k < prev.len() && prev[k] == x;
                                assert(next[k] == x);
                            }
                            if x == ns@ {
                                assert(next[prev.len() as int] == x);
                            }
                        }
                    }
                }
            },
            None => {},
        }
        i += 1;
    }
    assert(pods@.take(pods@.len() as int) =~= pods@);
    out
}

} // verus!
