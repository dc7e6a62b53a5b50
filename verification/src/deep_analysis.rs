//! Per-application deep investigation for namespaces on ambient Istio control planes.

use vstd::prelude::*;

use crate::catalog::{suggestions_view, AssessmentSuggestion, SuggestionView};
use crate::dataplane::{is_ambient_mesh_scope, DataplaneMode};
use crate::model::{findings_view, Finding, FindingCategory, FindingSeverity, FindingView, MeshInstance};
use crate::rules::{NamespaceContext, RuleContext, WorkloadContext};
use crate::text::{decimal, decimal_text, has_prefix, join, join_seq, owned, starts_with, str_eq, strings_view};
use crate::sorting::{
    keys_view, lemma_pair_lt_asymmetric, lemma_pair_lt_irreflexive, lemma_pair_lt_total,
    lemma_pair_lt_transitive, pair_lt, stable_order, stable_sorted,
};
use crate::traffic::{find_namespace_context, find_ns};

verus! {

/// Istio guide for migrating from sidecar to ambient mode.
pub const AMBIENT_MIGRATE_DOC: &'static str = "https://preliminary.istio.io/latest/docs/ambient/migrate/";

/// Findings and suggestions of an application, as values.
pub type Investigation = (Seq<FindingView>, Seq<SuggestionView>);

/// Some finding has the given id.
pub open spec fn has_id(fs: Seq<FindingView>, id: Seq<char>) -> bool {
    exists|i: int| 0 <= i < fs.len() && fs[i].id == id
}

/// Some finding is a blocker or a warning.
pub open spec fn spec_has_open_issues(fs: Seq<FindingView>) -> bool {
    exists|i: int|
        0 <= i < fs.len() && (fs[i].severity == FindingSeverity::Blocker || fs[i].severity
            == FindingSeverity::Warning)
}

/// A suggestion with the given texts.
pub open spec fn suggestion(id: Seq<char>, severity: Seq<char>, title: Seq<char>, remediation: Seq<char>) -> SuggestionView {
    SuggestionView { finding_id: id, severity, title, remediation }
}

// ---------------------------------------------------------------------------
// Routing inventory
// ---------------------------------------------------------------------------

pub open spec fn revision_hint(mesh: Option<MeshInstance>) -> Seq<char> {
    match mesh {
        Some(m) => " (revision `"@ + m.revision@ + "`)"@,
        None => Seq::empty(),
    }
}

pub open spec fn routing_inventory_finding(ns: Seq<char>, mesh: Option<MeshInstance>) -> FindingView {
    FindingView {
        id: "traffic.ambient-routing-inventory"@,
        severity: FindingSeverity::Warning,
        category: FindingCategory::TrafficCompatibility,
        title: "External routing inventory incomplete"@,
        message: "Namespace `"@ + ns + "` runs on ambient Istio"@ + revision_hint(mesh)
            + " with active workloads but no \
             VirtualService or HTTPRoute hostnames were indexed. Without a documented routing \
             inventory, L7 cutover validation and incident triage are harder."@,
        namespace: Some(ns),
        resource: None,
        remediation: Some(
            "Enumerate production hostnames on VirtualService `spec.hosts` or HTTPRoute \
             `spec.hostnames`, confirm Gateway/waypoint attachment, and attach evidence to the \
             change record."@,
        ),
        doc_url: Some(AMBIENT_MIGRATE_DOC@),
        evidence: None,
    }
}

pub open spec fn routing_inventory_suggestion(ns: Seq<char>) -> SuggestionView {
    suggestion(
        "traffic.ambient-routing-inventory"@,
        "warning"@,
        "Complete routing inventory for ambient operations"@,
        "For `"@ + ns + "`: export Gateway + HTTPRoute/VirtualService hostnames, verify DNS and \
             TLS termination paths, then re-run assessment to close this operational gap."@,
    )
}

/// Record the missing routing inventory of a namespace with workloads, unless a routing
/// finding is already there.
pub open spec fn hostname_step(ns: Seq<char>, mesh: Option<MeshInstance>, workload_count: u32, st: Investigation) -> Investigation {
    if workload_count == 0 || has_id(st.0, "traffic.ambient-routing-inventory"@) || has_id(
        st.0,
        "traffic.missing-hostnames"@,
    ) {
        st
    } else {
        (st.0.push(routing_inventory_finding(ns, mesh)), st.1.push(routing_inventory_suggestion(ns)))
    }
}

// ---------------------------------------------------------------------------
// Workloads
// ---------------------------------------------------------------------------

/// Workloads of a namespace, in order.
pub open spec fn workloads_in(ws: Seq<WorkloadContext>, ns: Seq<char>) -> Seq<WorkloadContext>
    decreases ws.len(),
{
    if ws.len() == 0 {
        Seq::empty()
    } else if ws.last().namespace@ == ns {
        workloads_in(ws.drop_last(), ns).push(ws.last())
    } else {
        workloads_in(ws.drop_last(), ns)
    }
}

/// Names of the workloads that run an Istio sidecar, in order.
pub open spec fn sidecar_names(ws: Seq<WorkloadContext>) -> Seq<Seq<char>>
    decreases ws.len(),
{
    if ws.len() == 0 {
        Seq::empty()
    } else if ws.last().has_istio_sidecar {
        sidecar_names(ws.drop_last()).push(ws.last().name@)
    } else {
        sidecar_names(ws.drop_last())
    }
}

/// The first `n` items, or all of them when there are fewer.
pub open spec fn first_n<A>(s: Seq<A>, n: int) -> Seq<A> {
    if s.len() <= n {
        s
    } else {
        s.take(n)
    }
}

/// ` (+N more)` for `N` items beyond the shown ones, nothing when there are none.
pub open spec fn more_suffix(total: nat, shown: nat, word: Seq<char>) -> Seq<char> {
    if total > shown {
        " (+"@ + decimal((total - shown) as nat) + " "@ + word + ")"@
    } else {
        Seq::empty()
    }
}

pub open spec fn residual_sample(names: Seq<Seq<char>>) -> Seq<char> {
    join_seq(first_n(names, 5), ", "@) + more_suffix(names.len(), 5, "more"@)
}

pub open spec fn residual_finding(ns: Seq<char>, names: Seq<Seq<char>>) -> FindingView {
    FindingView {
        id: "ambient.residual-sidecars"@,
        severity: FindingSeverity::Warning,
        category: FindingCategory::SidecarDependency,
        title: "Residual sidecar proxies detected"@,
        message: "Namespace `"@ + ns + "` is ambient-labeled but pods still run Istio sidecars \
                     ("@ + residual_sample(names) + "). Mixed dataplanes complicate policy and observability."@,
        namespace: Some(ns),
        resource: None,
        remediation: Some(
            "Identify workloads that require sidecars (VM, hold-until-proxy, custom Envoy) \
                     and plan removal or isolation; verify ztunnel capture for remaining pods."@,
        ),
        doc_url: Some(AMBIENT_MIGRATE_DOC@),
        evidence: Some("pods: "@ + residual_sample(names)),
    }
}

pub open spec fn residual_suggestion(ns: Seq<char>) -> SuggestionView {
    suggestion(
        "ambient.residual-sidecars"@,
        "warning"@,
        "Investigate mixed dataplane pods"@,
        "Audit sidecar pods in `"@ + ns + "`: confirm injection labels, rollout status, \
                     and whether ambient-only traffic is intended."@,
    )
}

/// On an ambient-labeled namespace, record the pods that still run sidecars, once.
pub open spec fn residual_step(ns: Seq<char>, dataplane: DataplaneMode, ws: Seq<WorkloadContext>, st: Investigation) -> Investigation {
    let names = sidecar_names(ws);
    if dataplane == DataplaneMode::Ambient && names.len() > 0 && !has_id(st.0, "ambient.residual-sidecars"@) {
        (st.0.push(residual_finding(ns, names)), st.1.push(residual_suggestion(ns)))
    } else {
        st
    }
}

pub open spec fn pod_ref(w: WorkloadContext) -> Seq<char> {
    w.namespace@ + "/"@ + w.name@
}

pub open spec fn localhost_hits(w: WorkloadContext) -> Seq<char> {
    join_seq(strings_view(w.localhost_proxy_hits@), "; "@)
}

pub open spec fn localhost_finding(ns: Seq<char>, w: WorkloadContext) -> FindingView {
    FindingView {
        id: "sidecar.localhost-proxy"@,
        severity: FindingSeverity::Warning,
        category: FindingCategory::SidecarDependency,
        title: "Localhost proxy dependency"@,
        message: "Pod `"@ + pod_ref(w) + "` references localhost proxy ports — common blocker for ambient HBONE."@,
        namespace: Some(ns),
        resource: Some(pod_ref(w)),
        remediation: Some(
            "Refactor app-to-proxy communication to service names or document an \
                     exception with a dedicated waypoint/sidecar retention plan."@,
        ),
        doc_url: Some(AMBIENT_MIGRATE_DOC@),
        evidence: Some("pod: "@ + w.name@ + "\nhits: "@ + localhost_hits(w)),
    }
}

pub open spec fn localhost_suggestion(w: WorkloadContext) -> SuggestionView {
    suggestion(
        "sidecar.localhost-proxy"@,
        "warning"@,
        "Deep dive: localhost proxy usage"@,
        "Review container env and annotations on `"@ + pod_ref(w) + "` ("@ + localhost_hits(w) + ")."@,
    )
}

pub open spec fn hold_finding(ns: Seq<char>, w: WorkloadContext) -> FindingView {
    FindingView {
        id: "sidecar.hold-until-proxy"@,
        severity: FindingSeverity::Warning,
        category: FindingCategory::SidecarDependency,
        title: "holdUntilProxyActive blocks ambient cutover"@,
        message: "Pod `"@ + pod_ref(w) + "` uses `proxy.istio.io/config: holdUntilProxyActive` — workloads \
                     will not start cleanly without a sidecar."@,
        namespace: Some(ns),
        resource: Some(pod_ref(w)),
        remediation: Some(
            "Remove holdUntilProxyActive or keep the workload on sidecar dataplane with \
                     documented exception."@,
        ),
        doc_url: Some(AMBIENT_MIGRATE_DOC@),
        evidence: Some(w.name@),
    }
}

pub open spec fn hold_suggestion(w: WorkloadContext) -> SuggestionView {
    suggestion(
        "sidecar.hold-until-proxy"@,
        "warning"@,
        "Resolve holdUntilProxyActive before ambient-only operation"@,
        "Pod `"@ + pod_ref(w) + "` must be refactored or excluded from ambient-only posture."@,
    )
}

/// Some finding records the localhost proxy use of the named pod.
pub open spec fn has_localhost_finding(fs: Seq<FindingView>, name: Seq<char>) -> bool {
    exists|i: int| 0 <= i < fs.len() && fs[i].id == "sidecar.localhost-proxy"@ && fs[i].evidence == Some(name)
}

/// Record what one workload needs: its localhost proxy use (once per pod) and its
/// holdUntilProxyActive setting.
pub open spec fn workload_step(ns: Seq<char>, w: WorkloadContext, st: Investigation) -> Investigation {
    let st1 = if w.uses_localhost_proxy && !has_localhost_finding(st.0, w.name@) {
        (st.0.push(localhost_finding(ns, w)), st.1.push(localhost_suggestion(w)))
    } else {
        st
    };
    if w.hold_until_proxy {
        (st1.0.push(hold_finding(ns, w)), st1.1.push(hold_suggestion(w)))
    } else {
        st1
    }
}

/// `workload_step` over a list of workloads, in order.
pub open spec fn workloads_steps(ns: Seq<char>, ws: Seq<WorkloadContext>, st: Investigation) -> Investigation
    decreases ws.len(),
{
    if ws.len() == 0 {
        st
    } else {
        workload_step(ns, ws.last(), workloads_steps(ns, ws.drop_last(), st))
    }
}

pub open spec fn vm_finding(ns: Seq<char>) -> FindingView {
    FindingView {
        id: "readiness.vm-workloads"@,
        severity: FindingSeverity::Warning,
        category: FindingCategory::Readiness,
        title: "VM workloads require extended validation"@,
        message: "Namespace `"@ + ns + "` includes VM/bare-metal workloads. Validate ztunnel \
                 onboarding, workload entry, and east-west policy separately from pod-only apps."@,
        namespace: Some(ns),
        resource: None,
        remediation: Some("Follow Istio ambient VM onboarding guides; verify WorkloadEntry and identity."@),
        doc_url: Some(AMBIENT_MIGRATE_DOC@),
        evidence: None,
    }
}

/// Record VM workloads of the namespace, once.
pub open spec fn vm_step(ns: Seq<char>, nss: Seq<NamespaceContext>, st: Investigation) -> Investigation {
    match find_ns(nss, ns) {
        Some(c) => if c.has_vm_workloads && !has_id(st.0, "readiness.vm-workloads"@) {
            (st.0.push(vm_finding(ns)), st.1)
        } else {
            st
        },
        None => st,
    }
}

/// The workload investigation of a namespace.
pub open spec fn workload_investigation(ns: Seq<char>, dataplane: DataplaneMode, ctx: RuleContext, st: Investigation) -> Investigation {
    let ws = workloads_in(ctx.workloads@, ns);
    vm_step(ns, ctx.namespaces@, workloads_steps(ns, ws, residual_step(ns, dataplane, ws, st)))
}

// ---------------------------------------------------------------------------
// Helpers
// ---------------------------------------------------------------------------

fn any_with_id(findings: &Vec<Finding>, id: &str) -> (r: bool)
    ensures
        r == has_id(findings_view(findings@), id@),
{
    let mut i: usize = 0;
    while i < findings.len()
        invariant
            i <= findings@.len(),
            forall|j: int| 0 <= j < i ==> findings@[j].id@ != id@,
        decreases findings@.len() - i,
    {
        if str_eq(findings[i].id.as_str(), id) {
            assert(findings_view(findings@)[i as int].id == id@);
            return true;
        }
        i += 1;
    }
    assert forall|j: int| 0 <= j < findings_view(findings@).len() implies findings_view(findings@)[j].id != id@ by {
        assert(findings_view(findings@)[j] == findings@[j]@);
    }
    false
}

/// Whether some finding is a blocker or a warning.
pub fn has_open_issues(findings: &Vec<Finding>) -> (r: bool)
    ensures
        r == spec_has_open_issues(findings_view(findings@)),
{
    let mut i: usize = 0;
    while i < findings.len()
        invariant
            i <= findings@.len(),
            forall|j: int|
                0 <= j < i ==> findings@[j].severity != FindingSeverity::Blocker && findings@[j].severity
                    != FindingSeverity::Warning,
        decreases findings@.len() - i,
    {
        match findings[i].severity {
            FindingSeverity::Blocker | FindingSeverity::Warning => {
                assert(findings_view(findings@)[i as int] == findings@[i as int]@);
                return true;
            },
            FindingSeverity::Info => {},
        }
        i += 1;
    }
    assert forall|j: int| 0 <= j < findings_view(findings@).len() implies !(findings_view(findings@)[j].severity
        == FindingSeverity::Blocker || findings_view(findings@)[j].severity == FindingSeverity::Warning) by {
        assert(findings_view(findings@)[j] == findings@[j]@);
    }
    false
}

/// A suggestion with the given texts.
pub fn deep_suggestion(finding_id: &str, severity: &str, title: &str, remediation: &str) -> (r: AssessmentSuggestion)
    ensures
        r@ == suggestion(finding_id@, severity@, title@, remediation@),
{
    AssessmentSuggestion {
        finding_id: owned(finding_id),
        severity: owned(severity),
        title: owned(title),
        remediation: owned(remediation),
    }
}

fn push_finding(findings: &mut Vec<Finding>, f: Finding)
    ensures
        findings_view(final(findings)@) == findings_view(old(findings)@).push(f@),
{
    findings.push(f);
    assert(findings_view(findings@) =~= findings_view(old(findings)@).push(f@));
}

fn push_suggestion(suggestions: &mut Vec<AssessmentSuggestion>, s: AssessmentSuggestion)
    ensures
        suggestions_view(final(suggestions)@) == suggestions_view(old(suggestions)@).push(s@),
{
    suggestions.push(s);
    assert(suggestions_view(suggestions@) =~= suggestions_view(old(suggestions)@).push(s@));
}

// ---------------------------------------------------------------------------
// Routing inventory, executable
// ---------------------------------------------------------------------------

fn append_hostname_inventory(
    ns_name: &str,
    mesh: Option<&MeshInstance>,
    workload_count: u32,
    findings: &mut Vec<Finding>,
    suggestions: &mut Vec<AssessmentSuggestion>,
)
    ensures
        (findings_view(final(findings)@), suggestions_view(final(suggestions)@)) == hostname_step(
            ns_name@,
            opt_mesh(mesh),
            workload_count,
            (findings_view(old(findings)@), suggestions_view(old(suggestions)@)),
        ),
{
    if workload_count == 0 {
        return;
    }
    if any_with_id(findings, "traffic.ambient-routing-inventory") || any_with_id(findings, "traffic.missing-hostnames") {
        return;
    }
    let rev = match mesh {
        Some(m) => {
            let mut t = owned(" (revision `");
            t.append(m.revision.as_str());
            t.append("`)");
            t
        },
        None => String::new(),
    };
    let mut message = owned("Namespace `");
    message.append(ns_name);
    message.append("` runs on ambient Istio");
    message.append(rev.as_str());
    message.append(
        " with active workloads but no \
             VirtualService or HTTPRoute hostnames were indexed. Without a documented routing \
             inventory, L7 cutover validation and incident triage are harder.",
    );
    let f = Finding {
        id: owned("traffic.ambient-routing-inventory"),
        severity: FindingSeverity::Warning,
        category: FindingCategory::TrafficCompatibility,
        title: owned("External routing inventory incomplete"),
        message,
        namespace: Some(owned(ns_name)),
        resource: None,
        remediation: Some(
            owned(
                "Enumerate production hostnames on VirtualService `spec.hosts` or HTTPRoute \
             `spec.hostnames`, confirm Gateway/waypoint attachment, and attach evidence to the \
             change record.",
            ),
        ),
        doc_url: Some(owned(AMBIENT_MIGRATE_DOC)),
        evidence: None,
    };
    assert(f@ == routing_inventory_finding(ns_name@, opt_mesh(mesh)));
    push_finding(findings, f);
    let mut remediation = owned("For `");
    remediation.append(ns_name);
    remediation.append(
        "`: export Gateway + HTTPRoute/VirtualService hostnames, verify DNS and \
             TLS termination paths, then re-run assessment to close this operational gap.",
    );
    push_suggestion(
        suggestions,
        deep_suggestion(
            "traffic.ambient-routing-inventory",
            "warning",
            "Complete routing inventory for ambient operations",
            remediation.as_str(),
        ),
    );
}

/// The mesh of an optional reference.
pub open spec fn opt_mesh(mesh: Option<&MeshInstance>) -> Option<MeshInstance> {
    match mesh {
        Some(m) => Some(*m),
        None => None,
    }
}

// ---------------------------------------------------------------------------
// Workloads, executable
// ---------------------------------------------------------------------------

fn any_localhost_finding(findings: &Vec<Finding>, name: &str) -> (r: bool)
    ensures
        r == has_localhost_finding(findings_view(findings@), name@),
{
    let mut i: usize = 0;
    while i < findings.len()
        invariant
            i <= findings@.len(),
            forall|j: int|
                0 <= j < i ==> !(findings@[j]@.id == "sidecar.localhost-proxy"@ && findings@[j]@.evidence == Some(name@)),
        decreases findings@.len() - i,
    {
        let f = &findings[i];
        let hit = str_eq(f.id.as_str(), "sidecar.localhost-proxy") && match &f.evidence {
            Some(e) => str_eq(e.as_str(), name),
            None => false,
        };
        if hit {
            assert(findings_view(findings@)[i as int] == findings@[i as int]@);
            return true;
        }
        i += 1;
    }
    assert forall|j: int| 0 <= j < findings_view(findings@).len() implies !(findings_view(findings@)[j].id
        == "sidecar.localhost-proxy"@ && findings_view(findings@)[j].evidence == Some(name@)) by {
        assert(findings_view(findings@)[j] == findings@[j]@);
    }
    false
}

fn pod_ref_text(w: &WorkloadContext) -> (r: String)
    ensures
        r@ == pod_ref(*w),
{
    let mut t = w.namespace.clone();
    t.append("/");
    t.append(w.name.as_str());
    t
}

fn more_suffix_text(total: usize, shown: usize, word: &str) -> (r: String)
    ensures
        r@ == more_suffix(total as nat, shown as nat, word@),
{
    if total > shown {
        let mut t = owned(" (+");
        let n = decimal_text((total - shown) as u64);
        t.append(n.as_str());
        t.append(" ");
        t.append(word);
        t.append(")");
        t
    } else {
        String::new()
    }
}

fn first_texts(v: &Vec<String>, n: usize) -> (r: Vec<String>)
    ensures
        strings_view(r@) == first_n(strings_view(v@), n as int),
{
    let mut out: Vec<String> = Vec::new();
    let mut i: usize = 0;
    while i < v.len() && i < n
        invariant
            i <= v@.len(),
            i <= n,
            strings_view(out@) == strings_view(v@).take(i as int),
        decreases v@.len() - i,
    {
        let ghost before = out@;
        out.push(v[i].clone());
        assert(strings_view(out@) =~= strings_view(before).push(v@[i as int]@));
        i += 1;
        assert(strings_view(v@).take(i as int) =~= strings_view(v@).take(i - 1).push(v@[i - 1]@));
    }
    if v.len() <= n {
        assert(strings_view(v@).take(v@.len() as int) =~= strings_view(v@));
    }
    out
}

fn workload_findings(
    ns_name: &str,
    w: &WorkloadContext,
    findings: &mut Vec<Finding>,
    suggestions: &mut Vec<AssessmentSuggestion>,
)
    ensures
        (findings_view(final(findings)@), suggestions_view(final(suggestions)@)) == workload_step(
            ns_name@,
            *w,
            (findings_view(old(findings)@), suggestions_view(old(suggestions)@)),
        ),
{
    if w.uses_localhost_proxy && !any_localhost_finding(findings, w.name.as_str()) {
        let hits = join(&w.localhost_proxy_hits, "; ");
        let pr = pod_ref_text(w);
        let mut message = owned("Pod `");
        message.append(pr.as_str());
        message.append("` references localhost proxy ports — common blocker for ambient HBONE.");
        let mut evidence = owned("pod: ");
        evidence.append(w.name.as_str());
        evidence.append("\nhits: ");
        evidence.append(hits.as_str());
        let f = Finding {
            id: owned("sidecar.localhost-proxy"),
            severity: FindingSeverity::Warning,
            category: FindingCategory::SidecarDependency,
            title: owned("Localhost proxy dependency"),
            message,
            namespace: Some(owned(ns_name)),
            resource: Some(pr.clone()),
            remediation: Some(
                owned(
                    "Refactor app-to-proxy communication to service names or document an \
                     exception with a dedicated waypoint/sidecar retention plan.",
                ),
            ),
            doc_url: Some(owned(AMBIENT_MIGRATE_DOC)),
            evidence: Some(evidence),
        };
        assert(f@ == localhost_finding(ns_name@, *w));
        push_finding(findings, f);
        let mut rem = owned("Review container env and annotations on `");
        rem.append(pr.as_str());
        rem.append("` (");
        rem.append(hits.as_str());
        rem.append(").");
        push_suggestion(
            suggestions,
            deep_suggestion("sidecar.localhost-proxy", "warning", "Deep dive: localhost proxy usage", rem.as_str()),
        );
    }
    if w.hold_until_proxy {
        let pr = pod_ref_text(w);
        let mut message = owned("Pod `");
        message.append(pr.as_str());
        message.append(
            "` uses `proxy.istio.io/config: holdUntilProxyActive` — workloads \
                     will not start cleanly without a sidecar.",
        );
        let f = Finding {
            id: owned("sidecar.hold-until-proxy"),
            severity: FindingSeverity::Warning,
            category: FindingCategory::SidecarDependency,
            title: owned("holdUntilProxyActive blocks ambient cutover"),
            message,
            namespace: Some(owned(ns_name)),
            resource: Some(pr.clone()),
            remediation: Some(
                owned(
                    "Remove holdUntilProxyActive or keep the workload on sidecar dataplane with \
                     documented exception.",
                ),
            ),
            doc_url: Some(owned(AMBIENT_MIGRATE_DOC)),
            evidence: Some(w.name.clone()),
        };
        assert(f@ == hold_finding(ns_name@, *w));
        push_finding(findings, f);
        let mut rem = owned("Pod `");
        rem.append(pr.as_str());
        rem.append("` must be refactored or excluded from ambient-only posture.");
        push_suggestion(
            suggestions,
            deep_suggestion(
                "sidecar.hold-until-proxy",
                "warning",
                "Resolve holdUntilProxyActive before ambient-only operation",
                rem.as_str(),
            ),
        );
    }
}

fn append_workload_investigation(
    ns_name: &str,
    dataplane: DataplaneMode,
    ctx: &RuleContext,
    findings: &mut Vec<Finding>,
    suggestions: &mut Vec<AssessmentSuggestion>,
)
    ensures
        (findings_view(final(findings)@), suggestions_view(final(suggestions)@)) == workload_investigation(
            ns_name@,
            dataplane,
            *ctx,
            (findings_view(old(findings)@), suggestions_view(old(suggestions)@)),
        ),
{
    let ghost ws = ctx.workloads@;
    let ghost mine = workloads_in(ws, ns_name@);
    if dataplane == DataplaneMode::Ambient {
        let mut names: Vec<String> = Vec::new();
        let mut i: usize = 0;
        while i < ctx.workloads.len()
            invariant
                ws == ctx.workloads@,
                i <= ws.len(),
                strings_view(names@) == sidecar_names(workloads_in(ws.take(i as int), ns_name@)),
            decreases ws.len() - i,
        {
            assert(ws.take(i + 1).drop_last() =~= ws.take(i as int));
            let w = &ctx.workloads[i];
            if str_eq(w.namespace.as_str(), ns_name) {
                assert(workloads_in(ws.take(i + 1), ns_name@).drop_last() =~= workloads_in(ws.take(i as int), ns_name@));
            }
            if str_eq(w.namespace.as_str(), ns_name) && w.has_istio_sidecar {
                let ghost before = names@;
                names.push(w.name.clone());
                assert(strings_view(names@) =~= strings_view(before).push(w.name@));
            }
            i += 1;
        }
        assert(ws.take(ws.len() as int) =~= ws);
        if names.len() > 0 && !any_with_id(findings, "ambient.residual-sidecars") {
            let shown = first_texts(&names, 5);
            let mut sample = join(&shown, ", ");
            let suffix = more_suffix_text(names.len(), 5, "more");
            sample.append(suffix.as_str());
            let mut message = owned("Namespace `");
            message.append(ns_name);
            message.append(
                "` is ambient-labeled but pods still run Istio sidecars \
                     (",
            );
            message.append(sample.as_str());
            message.append("). Mixed dataplanes complicate policy and observability.");
            let mut evidence = owned("pods: ");
            evidence.append(sample.as_str());
            let f = Finding {
                id: owned("ambient.residual-sidecars"),
                severity: FindingSeverity::Warning,
                category: FindingCategory::SidecarDependency,
                title: owned("Residual sidecar proxies detected"),
                message,
                namespace: Some(owned(ns_name)),
                resource: None,
                remediation: Some(
                    owned(
                        "Identify workloads that require sidecars (VM, hold-until-proxy, custom Envoy) \
                     and plan removal or isolation; verify ztunnel capture for remaining pods.",
                    ),
                ),
                doc_url: Some(owned(AMBIENT_MIGRATE_DOC)),
                evidence: Some(evidence),
            };
            assert(f@ == residual_finding(ns_name@, strings_view(names@)));
            push_finding(findings, f);
            let mut rem = owned("Audit sidecar pods in `");
            rem.append(ns_name);
            rem.append(
                "`: confirm injection labels, rollout status, \
                     and whether ambient-only traffic is intended.",
            );
            push_suggestion(
                suggestions,
                deep_suggestion("ambient.residual-sidecars", "warning", "Investigate mixed dataplane pods", rem.as_str()),
            );
        }
    }
    let ghost st0 = (findings_view(findings@), suggestions_view(suggestions@));
    assert(st0 == residual_step(
        ns_name@,
        dataplane,
        mine,
        (findings_view(old(findings)@), suggestions_view(old(suggestions)@)),
    ));
    let mut i: usize = 0;
    while i < ctx.workloads.len()
        invariant
            ws == ctx.workloads@,
            i <= ws.len(),
            (findings_view(findings@), suggestions_view(suggestions@)) == workloads_steps(
                ns_name@,
                workloads_in(ws.take(i as int), ns_name@),
                st0,
            ),
        decreases ws.len() - i,
    {
        assert(ws.take(i + 1).drop_last() =~= ws.take(i as int));
        let w = &ctx.workloads[i];
        if str_eq(w.namespace.as_str(), ns_name) {
            assert(workloads_in(ws.take(i + 1), ns_name@).drop_last() =~= workloads_in(ws.take(i as int), ns_name@));
            workload_findings(ns_name, w, findings, suggestions);
        }
        i += 1;
    }
    assert(ws.take(ws.len() as int) =~= ws);
    match find_namespace_context(&ctx.namespaces, ns_name) {
        Some(c) => {
            if c.has_vm_workloads && !any_with_id(findings, "readiness.vm-workloads") {
                let mut message = owned("Namespace `");
                message.append(ns_name);
                message.append(
                    "` includes VM/bare-metal workloads. Validate ztunnel \
                 onboarding, workload entry, and east-west policy separately from pod-only apps.",
                );
                let f = Finding {
                    id: owned("readiness.vm-workloads"),
                    severity: FindingSeverity::Warning,
                    category: FindingCategory::Readiness,
                    title: owned("VM workloads require extended validation"),
                    message,
                    namespace: Some(owned(ns_name)),
                    resource: None,
                    remediation: Some(owned("Follow Istio ambient VM onboarding guides; verify WorkloadEntry and identity.")),
                    doc_url: Some(owned(AMBIENT_MIGRATE_DOC)),
                    evidence: None,
                };
                assert(f@ == vm_finding(ns_name@));
                push_finding(findings, f);
            }
        },
        None => {},
    }
}

// ---------------------------------------------------------------------------
// Policies
// ---------------------------------------------------------------------------

/// `(kind, name)` for each name of the namespace, in order.
pub open spec fn kind_hits(names: Seq<Seq<char>>, kind: Seq<char>, ns: Seq<char>) -> Seq<(Seq<char>, Seq<char>)>
    decreases names.len(),
{
    if names.len() == 0 {
        Seq::empty()
    } else if has_prefix(names.last(), ns + "/"@) {
        kind_hits(names.drop_last(), kind, ns).push((kind, names.last()))
    } else {
        kind_hits(names.drop_last(), kind, ns)
    }
}

/// Policy objects of a namespace that need ambient translation review.
pub open spec fn policy_items(ns: Seq<char>, ctx: RuleContext) -> Seq<(Seq<char>, Seq<char>)> {
    kind_hits(strings_view(ctx.policies.l7_authorization_policies@), "L7 AuthorizationPolicy"@, ns) + kind_hits(
        strings_view(ctx.policies.destination_rules_with_subsets@),
        "DestinationRule subsets"@,
        ns,
    ) + kind_hits(strings_view(ctx.policies.envoy_filters@), "EnvoyFilter"@, ns)
}

/// `out` lists the pairs of `items`, each once, in ascending order.
pub open spec fn sorted_pairs_of(out: Seq<(Seq<char>, Seq<char>)>, items: Seq<(Seq<char>, Seq<char>)>) -> bool {
    &&& forall|i: int, j: int| 0 <= i < j < out.len() ==> pair_lt(out[i], out[j])
    &&& forall|x: (Seq<char>, Seq<char>)| out.contains(x) <==> items.contains(x)
}

/// The policy hits of a namespace, each once, in ascending order of kind then name.
pub open spec fn policy_hits(ns: Seq<char>, ctx: RuleContext) -> Seq<(Seq<char>, Seq<char>)> {
    choose|h: Seq<(Seq<char>, Seq<char>)>| sorted_pairs_of(h, policy_items(ns, ctx))
}

pub proof fn lemma_sorted_pairs_unique(a: Seq<(Seq<char>, Seq<char>)>, b: Seq<(Seq<char>, Seq<char>)>)
    requires
        forall|i: int, j: int| 0 <= i < j < a.len() ==> pair_lt(a[i], a[j]),
        forall|i: int, j: int| 0 <= i < j < b.len() ==> pair_lt(b[i], b[j]),
        forall|x: (Seq<char>, Seq<char>)| a.contains(x) <==> b.contains(x),
    ensures
        a == b,
    decreases a.len(),
{
    if a.len() == 0 {
        if b.len() > 0 {
            assert(b.contains(b[0]));
        }
        assert(a =~= b);
    } else if b.len() == 0 {
        assert(a.contains(a[0]));
    } else {
        if a[0] != b[0] {
            assert(a.contains(a[0]));
            let j = choose|j: int| 0 <= j < b.len() && b[j] == a[0];
            assert(b.contains(b[0]));
            let i = choose|i: int| 0 <= i < a.len() && a[i] == b[0];
            assert(pair_lt(b[0], b[j]));
            assert(pair_lt(a[0], a[i]));
            lemma_pair_lt_asymmetric(a[0], b[0]);
        }
        let a1 = a.drop_first();
        let b1 = b.drop_first();
        assert forall|x: (Seq<char>, Seq<char>)| a1.contains(x) <==> b1.contains(x) by {
            if a1.contains(x) {
                let k = choose|k: int| 0 <= k < a1.len() && a1[k] == x;
                assert(pair_lt(a[0], a[k + 1]));
                lemma_pair_lt_irreflexive(x);
                assert(a.contains(x));
                let j = choose|j: int| 0 <= j < b.len() && b[j] == x;
                assert(j != 0);
                assert(b1[j - 1] == x);
            }
            if b1.contains(x) {
                let k = choose|k: int| 0 <= k < b1.len() && b1[k] == x;
                assert(pair_lt(b[0], b[k + 1]));
                lemma_pair_lt_irreflexive(x);
                assert(b.contains(x));
                let j = choose|j: int| 0 <= j < a.len() && a[j] == x;
                assert(j != 0);
                assert(a1[j - 1] == x);
            }
        }
        lemma_sorted_pairs_unique(a1, b1);
        assert(a =~= seq![a[0]] + a1);
        assert(b =~= seq![b[0]] + b1);
    }
}

fn push_kind_hits(
    items: &mut Vec<(String, String)>,
    names: &Vec<String>,
    kind: &str,
    ns_name: &str,
)
    ensures
        keys_view(final(items)@) == keys_view(old(items)@) + kind_hits(strings_view(names@), kind@, ns_name@),
{
    let mut prefix = owned(ns_name);
    prefix.append("/");
    let ghost nv = strings_view(names@);
    let mut i: usize = 0;
    while i < names.len()
        invariant
            nv == strings_view(names@),
            prefix@ == ns_name@ + "/"@,
            i <= names@.len(),
            keys_view(items@) == keys_view(old(items)@) + kind_hits(nv.take(i as int), kind@, ns_name@),
        decreases names@.len() - i,
    {
        assert(nv.take(i + 1).drop_last() =~= nv.take(i as int));
        assert(nv.take(i + 1).last() == names@[i as int]@);
        if starts_with(names[i].as_str(), prefix.as_str()) {
            let ghost before = items@;
            items.push((owned(kind), names[i].clone()));
            assert(keys_view(items@) =~= keys_view(before).push((kind@, names@[i as int]@)));
        }
        i += 1;
    }
    assert(nv.take(names@.len() as int) =~= nv);
}

fn same_pair(a: &(String, String), b: &(String, String)) -> (r: bool)
    ensures
        r == ((a.0@, a.1@) == (b.0@, b.1@)),
{
    str_eq(a.0.as_str(), b.0.as_str()) && str_eq(a.1.as_str(), b.1.as_str())
}

/// The pairs of a list, each once, in ascending order.
pub fn sorted_distinct_pairs(items: &Vec<(String, String)>) -> (r: Vec<(String, String)>)
    ensures
        sorted_pairs_of(keys_view(r@), keys_view(items@)),
{
    let ghost kv = keys_view(items@);
    let ord = stable_order(items);
    let mut out: Vec<(String, String)> = Vec::new();
    let mut q: usize = 0;
    while q < ord.len()
        invariant
            kv == keys_view(items@),
            stable_sorted(kv, ord@),
            q <= ord@.len(),
            forall|i: int, j: int| 0 <= i < j < keys_view(out@).len() ==> pair_lt(keys_view(out@)[i], keys_view(out@)[j]),
            q > 0 ==> keys_view(out@).len() > 0 && keys_view(out@).last() == kv[ord@[q - 1] as int],
            q == 0 ==> out@.len() == 0,
            forall|x: (Seq<char>, Seq<char>)| keys_view(out@).contains(x) <==> exists|t: int| 0 <= t < q && kv[ord@[t] as int] == x,
        decreases ord@.len() - q,
    {
        let t = ord[q];
        assert(t < items@.len());
        let ghost before = out@;
        let ghost x = kv[t as int];
        assert(forall|z: (Seq<char>, Seq<char>)| keys_view(before).contains(z) <==> exists|s: int| 0 <= s < q && kv[ord@[s] as int] == z);
        let fresh = out.len() == 0 || !same_pair(&out[out.len() - 1], &items[t]);
        if fresh {
            out.push((items[t].0.clone(), items[t].1.clone()));
            proof {
                assert(keys_view(out@) =~= keys_view(before).push(x));
                if q > 0 {
                    let y = kv[ord@[q - 1] as int];
                    assert(!pair_lt(x, y));
                    lemma_pair_lt_total(x, y);
                    assert forall|i: int| 0 <= i < keys_view(before).len() implies pair_lt(keys_view(before)[i], x) by {
                        if i < keys_view(before).len() - 1 {
                            lemma_pair_lt_transitive(keys_view(before)[i], y, x);
                        }
                    }
                }
            }
        } else {
            proof {
                assert(keys_view(out@) == keys_view(before));
            }
        }
        proof {
            assert forall|z: (Seq<char>, Seq<char>)| keys_view(out@).contains(z) <==> exists|s: int| 0 <= s < q + 1 && kv[ord@[s] as int] == z by {
                if keys_view(out@).contains(z) && z != x {
                    assert(keys_view(before).contains(z)) by {
                        let k = choose|k: int| 0 <= k < keys_view(out@).len() && keys_view(out@)[k] == z;
                        assert(keys_view(before)[k] == z);
                    }
                }
                if z == x {
                    assert(kv[ord@[q as int] as int] == z);
                    assert(keys_view(out@).contains(x)) by {
                        assert(keys_view(out@).last() == x);
                    }
                }
                if exists|s: int| 0 <= s < q + 1 && kv[ord@[s] as int] == z {
                    let s = choose|s: int| 0 <= s < q + 1 && kv[ord@[s] as int] == z;
                    if s < q {
                        assert(exists|t: int| 0 <= t < q && kv[ord@[t] as int] == z);
                        assert(keys_view(before).contains(z));
                        let k = choose|k: int| 0 <= k < keys_view(before).len() && keys_view(before)[k] == z;
                        assert(keys_view(out@)[k] == z);
                    }
                }
            }
        }
        q += 1;
    }
    proof {
        assert forall|x: (Seq<char>, Seq<char>)| keys_view(out@).contains(x) <==> kv.contains(x) by {
            if kv.contains(x) {
                let k = choose|k: int| 0 <= k < kv.len() && kv[k] == x;
                crate::attribution::lemma_permutation_onto(ord@, kv.len() as int, k);
                let t = choose|t: int| 0 <= t < ord@.len() && ord@[t] == k;
                assert(kv[ord@[t] as int] == x);
            }
            if keys_view(out@).contains(x) {
                let t = choose|t: int| 0 <= t < ord@.len() && kv[ord@[t] as int] == x;
                assert(ord@[t] < kv.len());
            }
        }
    }
    out
}

/// The policy hits of a namespace.
pub fn collect_policy_hits(ns_name: &str, ctx: &RuleContext) -> (r: Vec<(String, String)>)
    ensures
        keys_view(r@) == policy_hits(ns_name@, *ctx),
{
    let mut items: Vec<(String, String)> = Vec::new();
    push_kind_hits(&mut items, &ctx.policies.l7_authorization_policies, "L7 AuthorizationPolicy", ns_name);
    push_kind_hits(&mut items, &ctx.policies.destination_rules_with_subsets, "DestinationRule subsets", ns_name);
    push_kind_hits(&mut items, &ctx.policies.envoy_filters, "EnvoyFilter", ns_name);
    assert(keys_view(items@) =~= policy_items(ns_name@, *ctx));
    let out = sorted_distinct_pairs(&items);
    proof {
        lemma_sorted_pairs_unique(keys_view(out@), policy_hits(ns_name@, *ctx));
    }
    out
}

/// Lines `kind: name` of policy hits.
pub open spec fn policy_lines(h: Seq<(Seq<char>, Seq<char>)>) -> Seq<Seq<char>> {
    h.map_values(|p: (Seq<char>, Seq<char>)| p.0 + ": "@ + p.1)
}

pub open spec fn policy_finding(ns: Seq<char>, h: Seq<(Seq<char>, Seq<char>)>) -> FindingView {
    let shown = first_n(policy_lines(h), 6);
    FindingView {
        id: "policy.ambient-translation-review"@,
        severity: FindingSeverity::Info,
        category: FindingCategory::PolicyTranslation,
        title: "Policy objects require ambient translation review"@,
        message: "Namespace `"@ + ns + "` contains legacy or L7 policy objects that should be validated \
             under ambient: "@ + join_seq(shown, "; "@) + more_suffix(h.len(), 6, "additional"@),
        namespace: Some(ns),
        resource: None,
        remediation: Some(
            "Walk each policy through Istio ambient policy migration guidance; test on a \
             staging revision before production."@,
        ),
        doc_url: Some(AMBIENT_MIGRATE_DOC@),
        evidence: Some(join_seq(shown, "\n"@)),
    }
}

pub open spec fn policy_suggestion(ns: Seq<char>) -> SuggestionView {
    suggestion(
        "policy.ambient-translation-review"@,
        "info"@,
        "Deep dive: policy translation for ambient"@,
        "Review listed policies in `"@ + ns + "` for waypoint/L7 compatibility and PeerAuthentication equivalents."@,
    )
}

/// Record, once, the policy objects of the namespace that need ambient translation review.
pub open spec fn policy_step(ns: Seq<char>, ctx: RuleContext, st: Investigation) -> Investigation {
    let h = policy_hits(ns, ctx);
    if h.len() == 0 || has_id(st.0, "policy.ambient-translation-review"@) {
        st
    } else {
        (st.0.push(policy_finding(ns, h)), st.1.push(policy_suggestion(ns)))
    }
}

fn append_policy_investigation(
    ns_name: &str,
    ctx: &RuleContext,
    findings: &mut Vec<Finding>,
    suggestions: &mut Vec<AssessmentSuggestion>,
)
    ensures
        (findings_view(final(findings)@), suggestions_view(final(suggestions)@)) == policy_step(
            ns_name@,
            *ctx,
            (findings_view(old(findings)@), suggestions_view(old(suggestions)@)),
        ),
{
    let hits = collect_policy_hits(ns_name, ctx);
    if hits.len() == 0 {
        return;
    }
    let ghost h = keys_view(hits@);
    let mut lines: Vec<String> = Vec::new();
    let mut i: usize = 0;
    while i < hits.len()
        invariant
            h == keys_view(hits@),
            i <= hits@.len(),
            strings_view(lines@) == policy_lines(h).take(i as int),
        decreases hits@.len() - i,
    {
        let mut line = hits[i].0.clone();
        line.append(": ");
        line.append(hits[i].1.as_str());
        let ghost before = lines@;
        lines.push(line);
        assert(strings_view(lines@) =~= strings_view(before).push(policy_lines(h)[i as int]));
        i += 1;
        assert(policy_lines(h).take(i as int) =~= policy_lines(h).take(i - 1).push(policy_lines(h)[i - 1]));
    }
    assert(policy_lines(h).take(hits@.len() as int) =~= policy_lines(h));
    if any_with_id(findings, "policy.ambient-translation-review") {
        return;
    }
    let shown = first_texts(&lines, 6);
    let summary = join(&shown, "; ");
    let tail = more_suffix_text(hits.len(), 6, "additional");
    let mut message = owned("Namespace `");
    message.append(ns_name);
    message.append(
        "` contains legacy or L7 policy objects that should be validated \
             under ambient: ",
    );
    message.append(summary.as_str());
    message.append(tail.as_str());
    let f = Finding {
        id: owned("policy.ambient-translation-review"),
        severity: FindingSeverity::Info,
        category: FindingCategory::PolicyTranslation,
        title: owned("Policy objects require ambient translation review"),
        message,
        namespace: Some(owned(ns_name)),
        resource: None,
        remediation: Some(
            owned(
                "Walk each policy through Istio ambient policy migration guidance; test on a \
             staging revision before production.",
            ),
        ),
        doc_url: Some(owned(AMBIENT_MIGRATE_DOC)),
        evidence: Some(join(&shown, "\n")),
    };
    assert(f@ == policy_finding(ns_name@, h));
    push_finding(findings, f);
    let mut rem = owned("Review listed policies in `");
    rem.append(ns_name);
    rem.append("` for waypoint/L7 compatibility and PeerAuthentication equivalents.");
    push_suggestion(
        suggestions,
        deep_suggestion("policy.ambient-translation-review", "info", "Deep dive: policy translation for ambient", rem.as_str()),
    );
}

// ---------------------------------------------------------------------------
// Rule synthesis, posture, and the whole investigation
// ---------------------------------------------------------------------------

/// Lower-case name of a severity.
pub open spec fn severity_word(s: FindingSeverity) -> Seq<char> {
    match s {
        FindingSeverity::Blocker => "blocker"@,
        FindingSeverity::Warning => "warning"@,
        FindingSeverity::Info => "info"@,
    }
}

/// Lower-case name of a severity.
pub fn severity_text(s: FindingSeverity) -> (r: &'static str)
    ensures
        r@ == severity_word(s),
{
    match s {
        FindingSeverity::Blocker => "blocker",
        FindingSeverity::Warning => "warning",
        FindingSeverity::Info => "info",
    }
}

/// Some suggestion is tied to the finding id.
pub open spec fn suggested(ss: Seq<SuggestionView>, id: Seq<char>) -> bool {
    exists|i: int| 0 <= i < ss.len() && ss[i].finding_id == id
}

/// A finding of the namespace that gets an investigation suggestion.
pub open spec fn needs_investigation(f: FindingView, ns: Seq<char>, existing: Seq<SuggestionView>) -> bool {
    &&& f.namespace == Some(ns)
    &&& !has_prefix(f.id, "traffic.ambient-routing-inventory"@)
    &&& !has_prefix(f.id, "ambient.posture-stable"@)
    &&& !suggested(existing, f.id)
}

pub open spec fn investigation_suggestion(f: FindingView) -> SuggestionView {
    suggestion(
        f.id,
        severity_word(f.severity),
        "Investigate: "@ + f.title,
        match f.remediation {
            Some(r) => r,
            None => "Review finding evidence, reproduce in staging, and document resolution."@,
        },
    )
}

/// Investigation suggestions for the findings of the namespace that have none yet.
pub open spec fn synthesized(fs: Seq<FindingView>, ns: Seq<char>, existing: Seq<SuggestionView>) -> Seq<SuggestionView>
    decreases fs.len(),
{
    if fs.len() == 0 {
        Seq::empty()
    } else if needs_investigation(fs.last(), ns, existing) {
        synthesized(fs.drop_last(), ns, existing).push(investigation_suggestion(fs.last()))
    } else {
        synthesized(fs.drop_last(), ns, existing)
    }
}

pub open spec fn synthesis_step(ns: Seq<char>, st: Investigation) -> Investigation {
    (st.0, st.1 + synthesized(st.0, ns, st.1))
}

pub open spec fn posture_suggestion(ns: Seq<char>) -> SuggestionView {
    suggestion(
        "ambient.posture-stable"@,
        "info"@,
        "Ambient posture stable — maintain operational review"@,
        "Namespace `"@ + ns + "` on ambient Istio shows no blockers in this scan. \
                 Continue periodic assessment, monitor ztunnel/HBONE metrics, and validate L7 policy \
                 (AuthorizationPolicy, waypoints) after each platform upgrade."@,
    )
}

pub open spec fn posture_step(ns: Seq<char>, workload_count: u32, st: Investigation) -> Investigation {
    if workload_count > 0 && !spec_has_open_issues(st.0) {
        (st.0, st.1.push(posture_suggestion(ns)))
    } else {
        st
    }
}

/// Findings without those with the given id, in order.
pub open spec fn without_id(fs: Seq<FindingView>, id: Seq<char>) -> Seq<FindingView>
    decreases fs.len(),
{
    if fs.len() == 0 {
        Seq::empty()
    } else if fs.last().id == id {
        without_id(fs.drop_last(), id)
    } else {
        without_id(fs.drop_last(), id).push(fs.last())
    }
}

/// The deep investigation of an application namespace: nothing unless the namespace is in
/// ambient mesh scope; there, drop the ambient enrollment nag and add the routing inventory
/// (when no hostnames were indexed), workload, policy and per-finding investigations, and a
/// stable-posture note when nothing is open.
pub open spec fn spec_enrich(
    ns: Seq<char>,
    dataplane: DataplaneMode,
    mesh: Option<MeshInstance>,
    ctx: RuleContext,
    st: Investigation,
    hostnames_empty: bool,
    workload_count: u32,
) -> Investigation {
    if !(dataplane == DataplaneMode::Ambient || (mesh is Some && mesh->0.ambient)) {
        st
    } else {
        let s1 = (without_id(st.0, "enrollment.missing-ambient-dataplane"@), st.1);
        let s2 = if hostnames_empty {
            hostname_step(ns, mesh, workload_count, s1)
        } else {
            s1
        };
        let s3 = workload_investigation(ns, dataplane, ctx, s2);
        let s4 = policy_step(ns, ctx, s3);
        posture_step(ns, workload_count, synthesis_step(ns, s4))
    }
}

/// Whether no finding of a list has the given id.
pub open spec fn lacks_id(fs: Seq<FindingView>, id: Seq<char>) -> bool {
    forall|i: int| 0 <= i < fs.len() ==> (#[trigger] fs[i]).id != id
}

/// Id of the enrollment nag that ambient namespaces drop.
pub open spec fn enrollment_nag_id() -> Seq<char> {
    "enrollment.missing-ambient-dataplane"@
}

proof fn lemma_without_id_lacks(fs: Seq<FindingView>, id: Seq<char>)
    ensures
        lacks_id(without_id(fs, id), id),
    decreases fs.len(),
{
    if fs.len() > 0 {
        lemma_without_id_lacks(fs.drop_last(), id);
    }
}

proof fn lemma_push_lacks(fs: Seq<FindingView>, f: FindingView, id: Seq<char>)
    requires
        lacks_id(fs, id),
        f.id != id,
    ensures
        lacks_id(fs.push(f), id),
{
    assert forall|i: int| 0 <= i < fs.push(f).len() implies (#[trigger] fs.push(f)[i]).id != id by {
        if i < fs.len() {
            assert(fs.push(f)[i] == fs[i]);
        }
    }
}

proof fn lemma_added_ids_differ_from_nag()
    ensures
        "traffic.ambient-routing-inventory"@ != enrollment_nag_id(),
        "ambient.residual-sidecars"@ != enrollment_nag_id(),
        "sidecar.localhost-proxy"@ != enrollment_nag_id(),
        "sidecar.hold-until-proxy"@ != enrollment_nag_id(),
        "readiness.vm-workloads"@ != enrollment_nag_id(),
        "policy.ambient-translation-review"@ != enrollment_nag_id(),
{
    reveal_strlit("enrollment.missing-ambient-dataplane");
    reveal_strlit("traffic.ambient-routing-inventory");
    reveal_strlit("ambient.residual-sidecars");
    reveal_strlit("sidecar.localhost-proxy");
    reveal_strlit("sidecar.hold-until-proxy");
    reveal_strlit("readiness.vm-workloads");
    reveal_strlit("policy.ambient-translation-review");
    assert(enrollment_nag_id()[0] == 'e');
    assert("traffic.ambient-routing-inventory"@[0] == 't');
    assert("ambient.residual-sidecars"@[0] == 'a');
    assert("sidecar.localhost-proxy"@[0] == 's');
    assert("sidecar.hold-until-proxy"@[0] == 's');
    assert("readiness.vm-workloads"@[0] == 'r');
    assert("policy.ambient-translation-review"@[0] == 'p');
}

proof fn lemma_workloads_steps_lack_nag(ns: Seq<char>, ws: Seq<WorkloadContext>, st: Investigation)
    requires
        lacks_id(st.0, enrollment_nag_id()),
    ensures
        lacks_id(workloads_steps(ns, ws, st).0, enrollment_nag_id()),
    decreases ws.len(),
{
    if ws.len() > 0 {
        lemma_workloads_steps_lack_nag(ns, ws.drop_last(), st);
        let prev = workloads_steps(ns, ws.drop_last(), st);
        let w = ws.last();
        lemma_added_ids_differ_from_nag();
        let st1 = if w.uses_localhost_proxy && !has_localhost_finding(prev.0, w.name@) {
            lemma_push_lacks(prev.0, localhost_finding(ns, w), enrollment_nag_id());
            (prev.0.push(localhost_finding(ns, w)), prev.1.push(localhost_suggestion(w)))
        } else {
            prev
        };
        if w.hold_until_proxy {
            lemma_push_lacks(st1.0, hold_finding(ns, w), enrollment_nag_id());
        }
    }
}

/// Enrichment changes nothing outside ambient mesh scope; inside it, the findings it
/// returns never hold the enrollment nag, whatever it was given.
pub proof fn law_enrich_drops_enrollment_nag(
    ns: Seq<char>,
    dataplane: DataplaneMode,
    mesh: Option<MeshInstance>,
    ctx: RuleContext,
    st: Investigation,
    hostnames_empty: bool,
    workload_count: u32,
)
    ensures
        !(dataplane == DataplaneMode::Ambient || (mesh is Some && mesh->0.ambient)) ==> spec_enrich(
            ns,
            dataplane,
            mesh,
            ctx,
            st,
            hostnames_empty,
            workload_count,
        ) == st,
        (dataplane == DataplaneMode::Ambient || (mesh is Some && mesh->0.ambient)) ==> lacks_id(
            spec_enrich(ns, dataplane, mesh, ctx, st, hostnames_empty, workload_count).0,
            enrollment_nag_id(),
        ),
{
    if dataplane == DataplaneMode::Ambient || (mesh is Some && mesh->0.ambient) {
        lemma_added_ids_differ_from_nag();
        let nag = enrollment_nag_id();
        let s1 = (without_id(st.0, nag), st.1);
        lemma_without_id_lacks(st.0, nag);
        let s2 = if hostnames_empty {
            hostname_step(ns, mesh, workload_count, s1)
        } else {
            s1
        };
        if hostnames_empty && s2 != s1 {
            lemma_push_lacks(s1.0, routing_inventory_finding(ns, mesh), nag);
        }
        let ws = workloads_in(ctx.workloads@, ns);
        let r = residual_step(ns, dataplane, ws, s2);
        if r != s2 {
            lemma_push_lacks(s2.0, residual_finding(ns, sidecar_names(ws)), nag);
        }
        lemma_workloads_steps_lack_nag(ns, ws, r);
        let w = workloads_steps(ns, ws, r);
        let s3 = vm_step(ns, ctx.namespaces@, w);
        if s3 != w {
            lemma_push_lacks(w.0, vm_finding(ns), nag);
        }
        assert(s3 == workload_investigation(ns, dataplane, ctx, s2));
        let s4 = policy_step(ns, ctx, s3);
        if s4 != s3 {
            lemma_push_lacks(s3.0, policy_finding(ns, policy_hits(ns, ctx)), nag);
        }
        assert(spec_enrich(ns, dataplane, mesh, ctx, st, hostnames_empty, workload_count).0 == s4.0);
    }
}

fn append_namespace_rule_synthesis(ns_name: &str, findings: &Vec<Finding>, suggestions: &mut Vec<AssessmentSuggestion>)
    ensures
        suggestions_view(final(suggestions)@) == suggestions_view(old(suggestions)@) + synthesized(
            findings_view(findings@),
            ns_name@,
            suggestions_view(old(suggestions)@),
        ),
{
    let ghost existing = suggestions_view(suggestions@);
    let mut ids: Vec<String> = Vec::new();
    let mut j: usize = 0;
    while j < suggestions.len()
        invariant
            existing == suggestions_view(suggestions@),
            j <= suggestions@.len(),
            strings_view(ids@) == existing.take(j as int).map_values(|x: SuggestionView| x.finding_id),
        decreases suggestions@.len() - j,
    {
        let ghost before = ids@;
        ids.push(suggestions[j].finding_id.clone());
        assert(strings_view(ids@) =~= strings_view(before).push(existing[j as int].finding_id));
        j += 1;
        assert(existing.take(j as int).map_values(|x: SuggestionView| x.finding_id) =~= existing.take(j - 1).map_values(
            |x: SuggestionView| x.finding_id,
        ).push(existing[j - 1].finding_id));
    }
    assert(existing.take(existing.len() as int) =~= existing);
    let ghost fv = findings_view(findings@);
    let mut i: usize = 0;
    while i < findings.len()
        invariant
            existing == suggestions_view(old(suggestions)@),
            strings_view(ids@) == existing.map_values(|x: SuggestionView| x.finding_id),
            fv == findings_view(findings@),
            i <= findings@.len(),
            suggestions_view(suggestions@) == existing + synthesized(fv.take(i as int), ns_name@, existing),
        decreases findings@.len() - i,
    {
        assert(fv.take(i + 1).drop_last() =~= fv.take(i as int));
        let f = &findings[i];
        assert(fv.take(i + 1).last() == f@);
        let in_ns = match &f.namespace {
            Some(n) => str_eq(n.as_str(), ns_name),
            None => false,
        };
        let known = crate::refs::vec_contains_str(&ids, f.id.as_str());
        proof {
            assert(known == suggested(existing, f@.id)) by {
                if known {
                    let k = choose|k: int| 0 <= k < strings_view(ids@).len() && strings_view(ids@)[k] == f@.id;
                    assert(existing[k].finding_id == f@.id);
                }
                if suggested(existing, f@.id) {
                    let k = choose|k: int| 0 <= k < existing.len() && existing[k].finding_id == f@.id;
                    assert(strings_view(ids@)[k] == f@.id);
                }
            }
        }
        if in_ns && !starts_with(f.id.as_str(), "traffic.ambient-routing-inventory") && !starts_with(
            f.id.as_str(),
            "ambient.posture-stable",
        ) && !known {
            let remediation = match &f.remediation {
                Some(r) => r.clone(),
                None => owned("Review finding evidence, reproduce in staging, and document resolution."),
            };
            let mut title = owned("Investigate: ");
            title.append(f.title.as_str());
            let sgg = deep_suggestion(f.id.as_str(), severity_text(f.severity), title.as_str(), remediation.as_str());
            let ghost before = suggestions_view(suggestions@);
            push_suggestion(suggestions, sgg);
            assert(suggestions_view(suggestions@) =~= existing + synthesized(fv.take(i + 1), ns_name@, existing));
        }
        i += 1;
    }
    assert(fv.take(findings@.len() as int) =~= fv);
}

fn remove_findings_with_id(findings: &mut Vec<Finding>, id: &str)
    ensures
        findings_view(final(findings)@) == without_id(findings_view(old(findings)@), id@),
{
    let ghost fv = findings_view(findings@);
    let mut kept: Vec<Finding> = Vec::new();
    let mut i: usize = 0;
    while i < findings.len()
        invariant
            fv == findings_view(findings@),
            i <= findings@.len(),
            findings_view(kept@) == without_id(fv.take(i as int), id@),
        decreases findings@.len() - i,
    {
        assert(fv.take(i + 1).drop_last() =~= fv.take(i as int));
        assert(fv.take(i + 1).last() == findings@[i as int]@);
        if !str_eq(findings[i].id.as_str(), id) {
            let d = findings[i].duplicate();
            push_finding(&mut kept, d);
        }
        i += 1;
    }
    assert(fv.take(fv.len() as int) =~= fv);
    *findings = kept;
}

/// Enrich assessment with operational deep-investigation findings and suggestions.
pub fn enrich_ambient_application(
    ns_name: &str,
    dataplane: DataplaneMode,
    mesh: Option<&MeshInstance>,
    ctx: &RuleContext,
    findings: &mut Vec<Finding>,
    suggestions: &mut Vec<AssessmentSuggestion>,
    hostnames_empty: bool,
    workload_count: u32,
)
    ensures
        (findings_view(final(findings)@), suggestions_view(final(suggestions)@)) == spec_enrich(
            ns_name@,
            dataplane,
            opt_mesh(mesh),
            *ctx,
            (findings_view(old(findings)@), suggestions_view(old(suggestions)@)),
            hostnames_empty,
            workload_count,
        ),
{
    if !is_ambient_mesh_scope(dataplane, mesh) {
        return;
    }
    remove_findings_with_id(findings, "enrollment.missing-ambient-dataplane");
    if hostnames_empty {
        append_hostname_inventory(ns_name, mesh, workload_count, findings, suggestions);
    }
    append_workload_investigation(ns_name, dataplane, ctx, findings, suggestions);
    append_policy_investigation(ns_name, ctx, findings, suggestions);
    append_namespace_rule_synthesis(ns_name, findings, suggestions);
    if workload_count > 0 && !has_open_issues(findings) {
        let mut rem = owned("Namespace `");
        rem.append(ns_name);
        rem.append(
            "` on ambient Istio shows no blockers in this scan. \
                 Continue periodic assessment, monitor ztunnel/HBONE metrics, and validate L7 policy \
                 (AuthorizationPolicy, waypoints) after each platform upgrade.",
        );
        push_suggestion(
            suggestions,
            deep_suggestion(
                "ambient.posture-stable",
                "info",
                "Ambient posture stable — maintain operational review",
                rem.as_str(),
            ),
        );
    }
}

pub proof fn lemma_workloads_in_len(ws: Seq<WorkloadContext>, ns: Seq<char>)
    ensures
        workloads_in(ws, ns).len() <= ws.len(),
    decreases ws.len(),
{
    if ws.len() > 0 {
        lemma_workloads_in_len(ws.drop_last(), ns);
    }
}

pub proof fn lemma_workloads_steps_len(ns: Seq<char>, ws: Seq<WorkloadContext>, st: Investigation)
    ensures
        workloads_steps(ns, ws, st).0.len() <= st.0.len() + 2 * ws.len(),
    decreases ws.len(),
{
    if ws.len() > 0 {
        lemma_workloads_steps_len(ns, ws.drop_last(), st);
    }
}

pub proof fn lemma_without_id_len(fs: Seq<FindingView>, id: Seq<char>)
    ensures
        without_id(fs, id).len() <= fs.len(),
    decreases fs.len(),
{
    if fs.len() > 0 {
        lemma_without_id_len(fs.drop_last(), id);
    }
}

/// The investigation adds at most four findings besides two per workload.
pub proof fn lemma_enrich_len(
    ns: Seq<char>,
    dataplane: DataplaneMode,
    mesh: Option<MeshInstance>,
    ctx: RuleContext,
    st: Investigation,
    hostnames_empty: bool,
    workload_count: u32,
)
    ensures
        spec_enrich(ns, dataplane, mesh, ctx, st, hostnames_empty, workload_count).0.len() <= st.0.len() + 2
            * ctx.workloads@.len() + 4,
{
    lemma_without_id_len(st.0, "enrollment.missing-ambient-dataplane"@);
    let ws = workloads_in(ctx.workloads@, ns);
    lemma_workloads_in_len(ctx.workloads@, ns);
    let s1 = (without_id(st.0, "enrollment.missing-ambient-dataplane"@), st.1);
    let s2 = if hostnames_empty {
        hostname_step(ns, mesh, workload_count, s1)
    } else {
        s1
    };
    let r = residual_step(ns, dataplane, ws, s2);
    lemma_workloads_steps_len(ns, ws, r);
}


/// A finding the workload investigation of `ns` may add: it names `ns`, it points at no
/// resource or at a pod of `ns` (`ns/...`), and it is the residual-sidecar warning only
/// when `residual` allows it.
pub open spec fn added_finding_ok(ns: Seq<char>, residual: bool, f: FindingView) -> bool {
    &&& f.namespace == Some(ns)
    &&& (f.resource matches Some(r) ==> has_prefix(r, ns + "/"@))
    &&& (!residual ==> f.id != "ambient.residual-sidecars"@)
}

/// `b` keeps every finding and suggestion of `a` in place and only appends to them;
/// every appended finding is one the investigation of `ns` may add.
pub open spec fn only_appends(ns: Seq<char>, residual: bool, a: Investigation, b: Investigation) -> bool {
    &&& a.0.len() <= b.0.len()
    &&& a.1.len() <= b.1.len()
    &&& b.0.subrange(0, a.0.len() as int) == a.0
    &&& b.1.subrange(0, a.1.len() as int) == a.1
    &&& forall|i: int| a.0.len() <= i < b.0.len() ==> added_finding_ok(ns, residual, #[trigger] b.0[i])
}

proof fn lemma_only_appends_refl(ns: Seq<char>, residual: bool, a: Investigation)
    ensures
        only_appends(ns, residual, a, a),
{
    assert(a.0.subrange(0, a.0.len() as int) =~= a.0);
    assert(a.1.subrange(0, a.1.len() as int) =~= a.1);
}

proof fn lemma_only_appends_trans(ns: Seq<char>, residual: bool, a: Investigation, b: Investigation, c: Investigation)
    requires
        only_appends(ns, residual, a, b),
        only_appends(ns, residual, b, c),
    ensures
        only_appends(ns, residual, a, c),
{
    assert forall|i: int| 0 <= i < a.0.len() implies c.0[i] == a.0[i] by {
        assert(c.0.subrange(0, b.0.len() as int)[i] == c.0[i]);
        assert(b.0.subrange(0, a.0.len() as int)[i] == b.0[i]);
    }
    assert forall|i: int| 0 <= i < a.1.len() implies c.1[i] == a.1[i] by {
        assert(c.1.subrange(0, b.1.len() as int)[i] == c.1[i]);
        assert(b.1.subrange(0, a.1.len() as int)[i] == b.1[i]);
    }
    assert(c.0.subrange(0, a.0.len() as int) =~= a.0);
    assert(c.1.subrange(0, a.1.len() as int) =~= a.1);
    assert forall|i: int| a.0.len() <= i < c.0.len() implies added_finding_ok(ns, residual, #[trigger] c.0[i]) by {
        if i < b.0.len() {
            assert(c.0.subrange(0, b.0.len() as int)[i] == c.0[i]);
            assert(added_finding_ok(ns, residual, b.0[i]));
        }
    }
}

proof fn lemma_push_only_appends(ns: Seq<char>, residual: bool, a: Investigation, f: FindingView, s: SuggestionView)
    requires
        added_finding_ok(ns, residual, f),
    ensures
        only_appends(ns, residual, a, (a.0.push(f), a.1.push(s))),
        only_appends(ns, residual, a, (a.0.push(f), a.1)),
{
    assert(a.0.push(f).subrange(0, a.0.len() as int) =~= a.0);
    assert(a.1.push(s).subrange(0, a.1.len() as int) =~= a.1);
    assert(a.1.subrange(0, a.1.len() as int) =~= a.1);
}

proof fn lemma_other_ids_not_residual()
    ensures
        "sidecar.localhost-proxy"@ != "ambient.residual-sidecars"@,
        "sidecar.hold-until-proxy"@ != "ambient.residual-sidecars"@,
        "readiness.vm-workloads"@ != "ambient.residual-sidecars"@,
{
    reveal_strlit("ambient.residual-sidecars");
    reveal_strlit("sidecar.localhost-proxy");
    reveal_strlit("sidecar.hold-until-proxy");
    reveal_strlit("readiness.vm-workloads");
    assert("ambient.residual-sidecars"@.len() == 25);
    assert("sidecar.localhost-proxy"@.len() == 23);
    assert("sidecar.hold-until-proxy"@.len() == 24);
    assert("readiness.vm-workloads"@.len() == 22);
}

proof fn lemma_pod_ref_in_namespace(ns: Seq<char>, w: WorkloadContext)
    requires
        w.namespace@ == ns,
    ensures
        has_prefix(pod_ref(w), ns + "/"@),
{
    assert(pod_ref(w).subrange(0, (ns + "/"@).len() as int) =~= ns + "/"@);
}

proof fn lemma_workloads_in_namespace(ws: Seq<WorkloadContext>, ns: Seq<char>)
    ensures
        forall|i: int| 0 <= i < workloads_in(ws, ns).len() ==> (#[trigger] workloads_in(ws, ns)[i]).namespace@ == ns,
    decreases ws.len(),
{
    if ws.len() > 0 {
        lemma_workloads_in_namespace(ws.drop_last(), ns);
        let prev = workloads_in(ws.drop_last(), ns);
        assert forall|i: int| 0 <= i < workloads_in(ws, ns).len() implies (#[trigger] workloads_in(ws, ns)[i]).namespace@ == ns by {
            if ws.last().namespace@ == ns && i == prev.len() {
                assert(workloads_in(ws, ns)[i] == ws.last());
            } else {
                assert(workloads_in(ws, ns)[i] == prev[i]);
            }
        }
    }
}

proof fn lemma_workload_step_appends(ns: Seq<char>, residual: bool, w: WorkloadContext, st: Investigation)
    requires
        w.namespace@ == ns,
    ensures
        only_appends(ns, residual, st, workload_step(ns, w, st)),
{
    lemma_pod_ref_in_namespace(ns, w);
    lemma_other_ids_not_residual();
    let st1 = if w.uses_localhost_proxy && !has_localhost_finding(st.0, w.name@) {
        lemma_push_only_appends(ns, residual, st, localhost_finding(ns, w), localhost_suggestion(w));
        (st.0.push(localhost_finding(ns, w)), st.1.push(localhost_suggestion(w)))
    } else {
        lemma_only_appends_refl(ns, residual, st);
        st
    };
    if w.hold_until_proxy {
        lemma_push_only_appends(ns, residual, st1, hold_finding(ns, w), hold_suggestion(w));
        lemma_only_appends_trans(ns, residual, st, st1, (st1.0.push(hold_finding(ns, w)), st1.1.push(hold_suggestion(w))));
    }
}

proof fn lemma_workloads_steps_appends(ns: Seq<char>, residual: bool, ws: Seq<WorkloadContext>, st: Investigation)
    requires
        forall|i: int| 0 <= i < ws.len() ==> (#[trigger] ws[i]).namespace@ == ns,
    ensures
        only_appends(ns, residual, st, workloads_steps(ns, ws, st)),
    decreases ws.len(),
{
    if ws.len() == 0 {
        lemma_only_appends_refl(ns, residual, st);
    } else {
        let prev = workloads_steps(ns, ws.drop_last(), st);
        assert forall|i: int| 0 <= i < ws.drop_last().len() implies (#[trigger] ws.drop_last()[i]).namespace@ == ns by {
            assert(ws.drop_last()[i] == ws[i]);
        }
        lemma_workloads_steps_appends(ns, residual, ws.drop_last(), st);
        assert(ws.last() == ws[ws.len() - 1]);
        lemma_workload_step_appends(ns, residual, ws.last(), prev);
        lemma_only_appends_trans(ns, residual, st, prev, workloads_steps(ns, ws, st));
    }
}

/// The workload investigation of a namespace only appends: the findings and suggestions
/// it was given stay first and unchanged, every finding it adds names the namespace and
/// points at nothing or at one of the namespace's pods, and it adds the residual-sidecar
/// warning only on the ambient dataplane.
pub proof fn law_investigation_only_appends(ns: Seq<char>, dataplane: DataplaneMode, ctx: RuleContext, st: Investigation)
    ensures
        only_appends(ns, dataplane == DataplaneMode::Ambient, st, workload_investigation(ns, dataplane, ctx, st)),
{
    let residual = dataplane == DataplaneMode::Ambient;
    let ws = workloads_in(ctx.workloads@, ns);
    let st1 = residual_step(ns, dataplane, ws, st);
    if dataplane == DataplaneMode::Ambient && sidecar_names(ws).len() > 0 && !has_id(st.0, "ambient.residual-sidecars"@) {
        lemma_push_only_appends(ns, residual, st, residual_finding(ns, sidecar_names(ws)), residual_suggestion(ns));
    } else {
        lemma_only_appends_refl(ns, residual, st);
    }
    lemma_workloads_in_namespace(ctx.workloads@, ns);
    lemma_workloads_steps_appends(ns, residual, ws, st1);
    let st2 = workloads_steps(ns, ws, st1);
    lemma_only_appends_trans(ns, residual, st, st1, st2);
    lemma_other_ids_not_residual();
    match find_ns(ctx.namespaces@, ns) {
        Some(c) => if c.has_vm_workloads && !has_id(st2.0, "readiness.vm-workloads"@) {
            lemma_push_only_appends(ns, residual, st2, vm_finding(ns), residual_suggestion(ns));
        } else {
            lemma_only_appends_refl(ns, residual, st2);
        },
        None => lemma_only_appends_refl(ns, residual, st2),
    }
    lemma_only_appends_trans(ns, residual, st, st2, workload_investigation(ns, dataplane, ctx, st));
}

} // verus!
