//! Traffic compatibility rules: VirtualService/HTTPRoute conflicts, waypoint requirements,
//! mixed-mode L7 gaps, DestinationRule subsets and north–south ingress.

use vstd::prelude::*;

use crate::model::{Finding, FindingCategory, FindingSeverity, FindingView, findings_view};
use crate::refs::{namespaces_of, namespaces_of_refs, parse_resource_namespace, refs_in, refs_in_namespace, resource_namespace};
use crate::rules::{finding, ExternalRouteInfo, NamespaceContext, RuleContext};
use crate::text::{join, join_seq, strings_view};

verus! {

/// Istio guide for migrating from sidecar to ambient mode.
pub const MIGRATE_DOC: &'static str = "https://preliminary.istio.io/latest/docs/ambient/migrate/";

/// Concatenation of two texts.
pub fn cat2(a: &str, b: &str) -> (r: String)
    ensures
        r@ == a@ + b@,
{
    let mut s = String::from_str(a);
    s.append(b);
    s
}

/// Concatenation of three texts.
pub fn cat3(a: &str, b: &str, c: &str) -> (r: String)
    ensures
        r@ == a@ + b@ + c@,
{
    let mut s = String::from_str(a);
    s.append(b);
    s.append(c);
    s
}

/// Concatenation of five texts.
pub fn cat5(a: &str, b: &str, c: &str, d: &str, e: &str) -> (r: String)
    ensures
        r@ == a@ + b@ + c@ + d@ + e@,
{
    let mut s = String::from_str(a);
    s.append(b);
    s.append(c);
    s.append(d);
    s.append(e);
    s
}

// ---------------------------------------------------------------------------
// VirtualService / HTTPRoute conflict
// ---------------------------------------------------------------------------

pub open spec fn vs_conflict_message(ns: Seq<char>) -> Seq<char> {
    "Namespace `"@ + ns + "` defines both VirtualService and HTTPRoute resources. \
     Istio documents this under known limitations (not a hard unsupported feature): \
     mixing both APIs for routing in one namespace causes undefined behavior in ambient mode."@
}

pub open spec fn vs_conflict_remediation(ns: Seq<char>) -> Seq<char> {
    "1. In namespace `"@ + ns + "`, list VirtualServices and HTTPRoutes.\n\
     2. For each workload, choose one API — migrate L7 rules to Gateway API HTTPRoute \
     (recommended) or complete cutover on VirtualService only (alpha in ambient).\n\
     3. Remove or narrow the conflicting resource so only one API governs routing.\n\
     4. Re-run assessment before labeling `"@ + ns
        + "` with `istio.io/dataplane-mode=ambient`."@
}

pub open spec fn vs_conflict_evidence(
    ns: Seq<char>,
    vs: Seq<Seq<char>>,
    hr: Seq<Seq<char>>,
) -> Seq<char> {
    "namespace: "@ + ns + "\nvirtualServices:\n"@ + join_seq(vs, "\n"@) + "\nhttpRoutes:\n"@
        + join_seq(hr, "\n"@)
}

/// The conflict finding for one namespace, given its VirtualServices and HTTPRoutes.
pub open spec fn vs_conflict_finding(
    ns: Seq<char>,
    vs: Seq<Seq<char>>,
    hr: Seq<Seq<char>>,
) -> FindingView {
    FindingView {
        id: "traffic.vs-httproute-conflict"@,
        severity: FindingSeverity::Warning,
        category: FindingCategory::TrafficCompatibility,
        title: "VirtualService and HTTPRoute must not coexist in the same namespace"@,
        message: vs_conflict_message(ns),
        namespace: Some(ns),
        resource: None,
        remediation: Some(vs_conflict_remediation(ns)),
        doc_url: Some(MIGRATE_DOC@),
        evidence: Some(vs_conflict_evidence(ns, refs_in(vs, ns), refs_in(hr, ns))),
    }
}

/// Namespaces of `nss` with at least one HTTPRoute.
pub open spec fn with_routes(nss: Seq<Seq<char>>, hr: Seq<Seq<char>>) -> Seq<Seq<char>>
    decreases nss.len(),
{
    if nss.len() == 0 {
        Seq::empty()
    } else {
        let p = with_routes(nss.drop_last(), hr);
        if refs_in(hr, nss.last()).len() > 0 {
            p.push(nss.last())
        } else {
            p
        }
    }
}

/// Namespaces that define both VirtualServices and HTTPRoutes, in order of the first
/// VirtualService of each.
pub open spec fn conflict_namespaces(vs: Seq<Seq<char>>, hr: Seq<Seq<char>>) -> Seq<Seq<char>> {
    with_routes(namespaces_of(vs), hr)
}

/// VirtualService and HTTPRoute must not coexist in the same namespace.
pub struct VsHttpRouteConflictRule;

impl VsHttpRouteConflictRule {
    pub fn id(&self) -> (r: &'static str)
        ensures
            r@ == "traffic.vs-httproute-conflict"@,
    {
        "traffic.vs-httproute-conflict"
    }

    pub fn category(&self) -> (r: FindingCategory)
        ensures
            r == FindingCategory::TrafficCompatibility,
    {
        FindingCategory::TrafficCompatibility
    }

    /// One warning per namespace that has both a VirtualService and an HTTPRoute.
    pub fn evaluate(&self, ctx: &RuleContext) -> (r: Vec<Finding>)
        ensures
            findings_view(r@) == conflict_namespaces(
                strings_view(ctx.policies.virtual_services@),
                strings_view(ctx.policies.http_routes@),
            ).map_values(
                |ns: Seq<char>|
                    vs_conflict_finding(
                        ns,
                        strings_view(ctx.policies.virtual_services@),
                        strings_view(ctx.policies.http_routes@),
                    ),
            ),
    {
        let vs = &ctx.policies.virtual_services;
        let hr = &ctx.policies.http_routes;
        let ghost vsv = strings_view(vs@);
        let ghost hrv = strings_view(hr@);
        let nss = namespaces_of_refs(vs);
        let ghost nv = strings_view(nss@);
        let ghost spec_fn = |ns: Seq<char>| vs_conflict_finding(ns, vsv, hrv);
        let mut findings: Vec<Finding> = Vec::new();
        let mut i: usize = 0;
        while i < nss.len()
            invariant
                nv == strings_view(nss@),
                nv == namespaces_of(vsv),
                vsv == strings_view(vs@),
                hrv == strings_view(hr@),
                spec_fn == (|ns: Seq<char>| vs_conflict_finding(ns, vsv, hrv)),
                i <= nss@.len(),
                findings_view(findings@) == with_routes(nv.take(i as int), hrv).map_values(spec_fn),
            decreases nss@.len() - i,
        {
            assert(nv.take(i + 1).drop_last() =~= nv.take(i as int));
            assert(nv.take(i + 1).last() == nss@[i as int]@);
            let ns = &nss[i];
            let hr_list = refs_in_namespace(hr, ns.as_str());
            if hr_list.len() > 0 {
                let vs_list = refs_in_namespace(vs, ns.as_str());
                let mut f = finding(
                    "traffic.vs-httproute-conflict",
                    FindingSeverity::Warning,
                    FindingCategory::TrafficCompatibility,
                    String::from_str("VirtualService and HTTPRoute must not coexist in the same namespace"),
                    cat3(
                        "Namespace `",
                        ns.as_str(),
                        "` defines both VirtualService and HTTPRoute resources. \
                         Istio documents this under known limitations (not a hard unsupported feature): \
                         mixing both APIs for routing in one namespace causes undefined behavior in ambient mode.",
                    ),
                );
                f.namespace = Some(ns.clone());
                f.doc_url = Some(String::from_str(MIGRATE_DOC));
                f.remediation = Some(cat5(
                    "1. In namespace `",
                    ns.as_str(),
                    "`, list VirtualServices and HTTPRoutes.\n\
                     2. For each workload, choose one API — migrate L7 rules to Gateway API HTTPRoute \
                     (recommended) or complete cutover on VirtualService only (alpha in ambient).\n\
                     3. Remove or narrow the conflicting resource so only one API governs routing.\n\
                     4. Re-run assessment before labeling `",
                    ns.as_str(),
                    "` with `istio.io/dataplane-mode=ambient`.",
                ));
                let vs_text = join(&vs_list, "\n");
                let hr_text = join(&hr_list, "\n");
                let mut ev = cat3("namespace: ", ns.as_str(), "\nvirtualServices:\n");
                ev.append(vs_text.as_str());
                ev.append("\nhttpRoutes:\n");
                ev.append(hr_text.as_str());
                f.evidence = Some(ev);
                let ghost before = findings@;
                findings.push(f);
                proof {
                    assert(findings_view(findings@) =~= findings_view(before).push(f@));
                    assert(f@ == spec_fn(ns@));
                    assert(with_routes(nv.take(i + 1), hrv) == with_routes(nv.take(i as int), hrv).push(ns@));
                    assert(with_routes(nv.take(i + 1), hrv).map_values(spec_fn) =~= with_routes(
                        nv.take(i as int),
                        hrv,
                    ).map_values(spec_fn).push(spec_fn(ns@)));
                }
            }
            i += 1;
        }
        assert(nv.take(nss@.len() as int) =~= nv);
        findings
    }
}

// ---------------------------------------------------------------------------
// L7 AuthorizationPolicy → waypoint
// ---------------------------------------------------------------------------

pub open spec fn l7_message(name: Seq<char>) -> Seq<char> {
    "AuthorizationPolicy `"@ + name + "` contains L7 match rules (HTTP paths, methods, \
     headers). In ambient mode, ztunnel handles L4 only; L7 enforcement happens \
     at a waypoint proxy attached via `Gateway`/`GatewayClass` and `targetRefs`."@
}

pub open spec fn l7_namespace_hint(ns: Option<Seq<char>>) -> Seq<char> {
    match ns {
        Some(n) => " `"@ + n + "`"@,
        None => Seq::empty(),
    }
}

pub open spec fn l7_remediation(ns: Option<Seq<char>>) -> Seq<char> {
    "1. Confirm the namespace"@ + l7_namespace_hint(ns)
        + " needs L7 policy (not L4-only).\n\
     2. Deploy an Istio waypoint for the namespace (see \"Do you need waypoint proxies?\" in the migrate guide).\n\
     3. Update the AuthorizationPolicy to use `targetRefs` selecting the waypoint.\n\
     4. Verify traffic with `istioctl proxy-config` / waypoint status before migrating dataplane mode."@
}

/// The waypoint finding for one L7 AuthorizationPolicy reference.
pub open spec fn l7_finding(name: Seq<char>) -> FindingView {
    FindingView {
        id: "traffic.l7-waypoint-required"@,
        severity: FindingSeverity::Warning,
        category: FindingCategory::TrafficCompatibility,
        title: "L7 AuthorizationPolicy requires a waypoint proxy"@,
        message: l7_message(name),
        namespace: resource_namespace(name),
        resource: Some(name),
        remediation: Some(l7_remediation(resource_namespace(name))),
        doc_url: Some(MIGRATE_DOC@),
        evidence: Some("resource: "@ + name + "\nspec: L7 rules detected on AuthorizationPolicy"@),
    }
}

/// L7 AuthorizationPolicy requires a waypoint proxy.
pub struct L7WaypointRule;

impl L7WaypointRule {
    pub fn id(&self) -> (r: &'static str)
        ensures
            r@ == "traffic.l7-waypoint-required"@,
    {
        "traffic.l7-waypoint-required"
    }

    pub fn category(&self) -> (r: FindingCategory)
        ensures
            r == FindingCategory::TrafficCompatibility,
    {
        FindingCategory::TrafficCompatibility
    }

    /// One warning per L7 AuthorizationPolicy, in order.
    pub fn evaluate(&self, ctx: &RuleContext) -> (r: Vec<Finding>)
        ensures
            findings_view(r@) == strings_view(ctx.policies.l7_authorization_policies@).map_values(
                |n: Seq<char>| l7_finding(n),
            ),
    {
        let names = &ctx.policies.l7_authorization_policies;
        let ghost sv = strings_view(names@);
        let mut out: Vec<Finding> = Vec::new();
        let mut i: usize = 0;
        while i < names.len()
            invariant
                sv == strings_view(names@),
                i <= names@.len(),
                findings_view(out@) == sv.take(i as int).map_values(|n: Seq<char>| l7_finding(n)),
            decreases names@.len() - i,
        {
            let name = &names[i];
            let ns = parse_resource_namespace(name.as_str());
            let hint = match &ns {
                Some(n) => cat3(" `", n.as_str(), "`"),
                None => String::new(),
            };
            let mut f = finding(
                "traffic.l7-waypoint-required",
                FindingSeverity::Warning,
                FindingCategory::TrafficCompatibility,
                String::from_str("L7 AuthorizationPolicy requires a waypoint proxy"),
                cat3(
                    "AuthorizationPolicy `",
                    name.as_str(),
                    "` contains L7 match rules (HTTP paths, methods, \
                     headers). In ambient mode, ztunnel handles L4 only; L7 enforcement happens \
                     at a waypoint proxy attached via `Gateway`/`GatewayClass` and `targetRefs`.",
                ),
            );
            f.resource = Some(name.clone());
            f.namespace = ns;
            f.doc_url = Some(String::from_str(MIGRATE_DOC));
            f.remediation = Some(cat3(
                "1. Confirm the namespace",
                hint.as_str(),
                " needs L7 policy (not L4-only).\n\
                 2. Deploy an Istio waypoint for the namespace (see \"Do you need waypoint proxies?\" in the migrate guide).\n\
                 3. Update the AuthorizationPolicy to use `targetRefs` selecting the waypoint.\n\
                 4. Verify traffic with `istioctl proxy-config` / waypoint status before migrating dataplane mode.",
            ));
            f.evidence = Some(cat3(
                "resource: ",
                name.as_str(),
                "\nspec: L7 rules detected on AuthorizationPolicy",
            ));
            let ghost before = out@;
            out.push(f);
            proof {
                assert(findings_view(out@) =~= findings_view(before).push(f@));
                assert(sv.take(i + 1) =~= sv.take(i as int).push(name@));
                assert(sv.take(i + 1).map_values(|n: Seq<char>| l7_finding(n)) =~= sv.take(
                    i as int,
                ).map_values(|n: Seq<char>| l7_finding(n)).push(l7_finding(name@)));
            }
            i += 1;
        }
        assert(sv.take(names@.len() as int) =~= sv);
        out
    }
}

// ---------------------------------------------------------------------------
// Mixed sidecar / ambient dataplanes
// ---------------------------------------------------------------------------

pub open spec fn mixed_mode_finding() -> FindingView {
    FindingView {
        id: "traffic.mixed-mode-l7-bypass"@,
        severity: FindingSeverity::Warning,
        category: FindingCategory::TrafficCompatibility,
        title: "Mixed sidecar and ambient dataplanes weaken L7 enforcement"@,
        message: "During incremental migration, traffic from a sidecar-injected client to an \
                     ambient destination with a waypoint bypasses the waypoint. L7 AuthorizationPolicy \
                     on that waypoint is not enforced for that path until the source is also ambient."@,
        namespace: None,
        resource: None,
        remediation: Some(
            "1. Identify caller namespaces still on sidecar injection and callees on ambient + waypoint.\n\
                     2. Plan migration waves so both ends of critical L7 paths share the same dataplane mode.\n\
                     3. Migrate caller namespaces to ambient (label + rollout) or defer waypoint-dependent policies until callers move.\n\
                     4. Validate policy with synthetic traffic after each namespace pair is aligned."@,
        ),
        doc_url: Some(MIGRATE_DOC@),
        evidence: None,
    }
}

/// Some namespace has sidecar injection enabled.
pub open spec fn any_injection(nss: Seq<NamespaceContext>) -> bool {
    exists|i: int| 0 <= i < nss.len() && nss[i].injection_enabled
}

/// Some namespace is labeled for the ambient dataplane.
pub open spec fn any_ambient(nss: Seq<NamespaceContext>) -> bool {
    exists|i: int| 0 <= i < nss.len() && nss[i].ambient_enabled
}

/// Mixed sidecar and ambient dataplanes weaken L7 enforcement.
pub struct MixedModeL7BypassRule;

impl MixedModeL7BypassRule {
    pub fn id(&self) -> (r: &'static str)
        ensures
            r@ == "traffic.mixed-mode-l7-bypass"@,
    {
        "traffic.mixed-mode-l7-bypass"
    }

    pub fn category(&self) -> (r: FindingCategory)
        ensures
            r == FindingCategory::TrafficCompatibility,
    {
        FindingCategory::TrafficCompatibility
    }

    /// One warning when some namespace uses sidecars and some namespace is ambient; none
    /// otherwise.
    pub fn evaluate(&self, ctx: &RuleContext) -> (r: Vec<Finding>)
        ensures
            (any_injection(ctx.namespaces@) && any_ambient(ctx.namespaces@)) ==> findings_view(r@)
                == seq![mixed_mode_finding()],
            !(any_injection(ctx.namespaces@) && any_ambient(ctx.namespaces@)) ==> r@.len() == 0,
    {
        let mut has_sidecar = false;
        let mut has_ambient = false;
        let mut i: usize = 0;
        while i < ctx.namespaces.len()
            invariant
                i <= ctx.namespaces@.len(),
                has_sidecar == exists|j: int| 0 <= j < i && ctx.namespaces@[j].injection_enabled,
                has_ambient == exists|j: int| 0 <= j < i && ctx.namespaces@[j].ambient_enabled,
            decreases ctx.namespaces@.len() - i,
        {
            if ctx.namespaces[i].injection_enabled {
                has_sidecar = true;
            }
            if ctx.namespaces[i].ambient_enabled {
                has_ambient = true;
            }
            i += 1;
        }
        if has_sidecar && has_ambient {
            let mut f = finding(
                "traffic.mixed-mode-l7-bypass",
                FindingSeverity::Warning,
                FindingCategory::TrafficCompatibility,
                String::from_str("Mixed sidecar and ambient dataplanes weaken L7 enforcement"),
                String::from_str(
                    "During incremental migration, traffic from a sidecar-injected client to an \
                     ambient destination with a waypoint bypasses the waypoint. L7 AuthorizationPolicy \
                     on that waypoint is not enforced for that path until the source is also ambient.",
                ),
            );
            f.doc_url = Some(String::from_str(MIGRATE_DOC));
            f.remediation = Some(
                String::from_str(
                    "1. Identify caller namespaces still on sidecar injection and callees on ambient + waypoint.\n\
                     2. Plan migration waves so both ends of critical L7 paths share the same dataplane mode.\n\
                     3. Migrate caller namespaces to ambient (label + rollout) or defer waypoint-dependent policies until callers move.\n\
                     4. Validate policy with synthetic traffic after each namespace pair is aligned.",
                ),
            );
            let mut v: Vec<Finding> = Vec::new();
            v.push(f);
            assert(findings_view(v@) =~= seq![mixed_mode_finding()]);
            v
        } else {
            Vec::new()
        }
    }
}

// ---------------------------------------------------------------------------
// DestinationRule subsets
// ---------------------------------------------------------------------------

/// The subsets finding for one DestinationRule reference.
pub open spec fn dr_subsets_finding(name: Seq<char>) -> FindingView {
    FindingView {
        id: "traffic.destination-rule-subsets"@,
        severity: FindingSeverity::Warning,
        category: FindingCategory::TrafficCompatibility,
        title: "DestinationRule subsets need HTTPRoute backendRefs planning"@,
        message: "DestinationRule `"@ + name + "` defines `spec.subsets` used for version routing. \
                         In ambient mode, subset-based routing with HTTPRoute typically requires \
                         version-specific Kubernetes Services as `backendRefs` rather than subset labels alone."@,
        namespace: resource_namespace(name),
        resource: Some(name),
        remediation: Some(
            "1. Document each subset label and backing Service/version.\n\
                     2. Create per-version Services (or use Gateway API backendRefs) matching your traffic split.\n\
                     3. Migrate VirtualService subset routes to HTTPRoute rules before ambient cutover.\n\
                     4. Retain DestinationRule traffic policies (connection pool, outlier detection) — waypoints still apply them."@,
        ),
        doc_url: Some(MIGRATE_DOC@),
        evidence: Some("resource: "@ + name + "\nspec.subsets: present"@),
    }
}

/// DestinationRule subsets need HTTPRoute backendRefs planning.
pub struct DestinationRuleSubsetsRule;

impl DestinationRuleSubsetsRule {
    pub fn id(&self) -> (r: &'static str)
        ensures
            r@ == "traffic.destination-rule-subsets"@,
    {
        "traffic.destination-rule-subsets"
    }

    pub fn category(&self) -> (r: FindingCategory)
        ensures
            r == FindingCategory::TrafficCompatibility,
    {
        FindingCategory::TrafficCompatibility
    }

    /// One warning per DestinationRule with subsets, in order.
    pub fn evaluate(&self, ctx: &RuleContext) -> (r: Vec<Finding>)
        ensures
            findings_view(r@) == strings_view(ctx.policies.destination_rules_with_subsets@).map_values(
                |n: Seq<char>| dr_subsets_finding(n),
            ),
    {
        let names = &ctx.policies.destination_rules_with_subsets;
        let ghost sv = strings_view(names@);
        let mut out: Vec<Finding> = Vec::new();
        let mut i: usize = 0;
        while i < names.len()
            invariant
                sv == strings_view(names@),
                i <= names@.len(),
                findings_view(out@) == sv.take(i as int).map_values(
                    |n: Seq<char>| dr_subsets_finding(n),
                ),
            decreases names@.len() - i,
        {
            let name = &names[i];
            let mut f = finding(
                "traffic.destination-rule-subsets",
                FindingSeverity::Warning,
                FindingCategory::TrafficCompatibility,
                String::from_str("DestinationRule subsets need HTTPRoute backendRefs planning"),
                cat3(
                    "DestinationRule `",
                    name.as_str(),
                    "` defines `spec.subsets` used for version routing. \
                         In ambient mode, subset-based routing with HTTPRoute typically requires \
                         version-specific Kubernetes Services as `backendRefs` rather than subset labels alone.",
                ),
            );
            f.resource = Some(name.clone());
            f.namespace = parse_resource_namespace(name.as_str());
            f.doc_url = Some(String::from_str(MIGRATE_DOC));
            f.remediation = Some(
                String::from_str(
                    "1. Document each subset label and backing Service/version.\n\
                     2. Create per-version Services (or use Gateway API backendRefs) matching your traffic split.\n\
                     3. Migrate VirtualService subset routes to HTTPRoute rules before ambient cutover.\n\
                     4. Retain DestinationRule traffic policies (connection pool, outlier detection) — waypoints still apply them.",
                ),
            );
            f.evidence = Some(cat3("resource: ", name.as_str(), "\nspec.subsets: present"));
            let ghost before = out@;
            out.push(f);
            proof {
                assert(findings_view(out@) =~= findings_view(before).push(f@));
                assert(sv.take(i + 1) =~= sv.take(i as int).push(name@));
                assert(sv.take(i + 1).map_values(|n: Seq<char>| dr_subsets_finding(n)) =~= sv.take(
                    i as int,
                ).map_values(|n: Seq<char>| dr_subsets_finding(n)).push(dr_subsets_finding(name@)));
            }
            i += 1;
        }
        assert(sv.take(names@.len() as int) =~= sv);
        out
    }
}

} // verus!

verus! {

// ---------------------------------------------------------------------------
// North–south ingress on the ambient revision
// ---------------------------------------------------------------------------

/// Gateway a route resolves to, written as namespace and name.
#[derive(Clone, Debug)]
pub struct GatewayRef {
    pub namespace: String,
    pub name: String,
}

/// What the mesh inventory says of one external route's ingress.
#[derive(Clone, Debug)]
pub struct RouteIngressFacts {
    /// The route is attached to an ingress gateway on a sidecar revision.
    pub uses_sidecar_ingress: bool,
    /// The gateway the route attaches to, when it could be resolved.
    pub gateway: Option<GatewayRef>,
}

/// What the mesh inventory says of the cluster's ingress, route by route in the order of
/// `PolicyContext::external_routes`.
#[derive(Clone, Debug)]
pub struct IngressFacts {
    /// A programmed ingress gateway exists on the ambient revision.
    pub ambient_ingress_ready: bool,
    pub routes: Vec<RouteIngressFacts>,
}

pub const AMBIENT_INGRESS_REMEDIATION: &'static str = "\
Option A — Shared ambient ingress (recommended when many apps use one gateway namespace):\n\
1. In the ingress namespace (e.g. bookinfo-gateway), create a Gateway API Gateway with \
   `gatewayClassName: istio` and label `istio.io/rev` matching your ambient control plane \
   (e.g. ambient-v1-28-6), or enroll that namespace on the ambient mesh.\n\
2. Update OpenShift Routes / LoadBalancer to target the new ambient ingress Service \
   (`<gateway-name>-istio`).\n\
3. Point each app HTTPRoute `parentRefs` at the ambient Gateway before or right after \
   migrating the app namespace to ambient.\n\
4. Run the public URL verification checklist (below).\n\
\n\
Option B — Per-namespace ingress (dedicated north–south for one app):\n\
1. After migrating the app namespace, create a Gateway on the ambient revision in that \
   namespace (or a small dedicated ingress namespace).\n\
2. Attach HTTPRoutes to that Gateway; update external Route/DNS to the new Service.\n\
3. Retire the old sidecar-revision parentRef when traffic is verified.\n\
\n\
Public URL verification (run before and after migration):\n\
1. `kubectl get httproute -n <app-ns> <name> -o jsonpath='{.status.parents}'` — must list \
   accepted parents (not empty).\n\
2. `kubectl get gateway -n <gw-ns> <name> -o jsonpath='{.status.conditions[?(@.type==\"Programmed\")].status}'` \
   — must be True.\n\
3. `curl -sI https://<public-host>/<path>` — expect the same HTTP status as before migration \
   (e.g. 200 or 302 to /productpage).\n\
4. OpenShift: `oc get route -n <gw-ns>` — backend Service must match the ambient ingress Service.";

/// First namespace context with the given name.
pub open spec fn find_ns(nss: Seq<NamespaceContext>, name: Seq<char>) -> Option<NamespaceContext>
    decreases nss.len(),
{
    if nss.len() == 0 {
        None
    } else if nss[0].name@ == name {
        Some(nss[0])
    } else {
        find_ns(nss.drop_first(), name)
    }
}

/// Whether a route of a namespace warrants a north–south ingress warning.
pub open spec fn route_needs_warning(
    ns: Option<NamespaceContext>,
    route: ExternalRouteInfo,
    fact: RouteIngressFacts,
    ready: bool,
) -> bool {
    match ns {
        None => false,
        Some(n) => {
            let is_candidate = n.injection_enabled && !n.ambient_enabled;
            let is_ambient = n.ambient_enabled;
            let detached = route.parents_attached == Some(false);
            &&& n.workload_count != 0
            &&& (is_candidate || is_ambient)
            &&& if is_ambient {
                fact.uses_sidecar_ingress || detached || !ready
            } else {
                fact.uses_sidecar_ingress && !ready
            }
        },
    }
}

/// Text naming the gateway of a route.
pub open spec fn gateway_desc(route: ExternalRouteInfo, fact: RouteIngressFacts) -> Seq<char> {
    match fact.gateway {
        Some(g) => g.namespace@ + "/"@ + g.name@,
        None => match (route.parent_gateway_namespace, route.parent_gateway_name) {
            (Some(a), Some(b)) => a@ + "/"@ + b@,
            _ => "unknown gateway"@,
        },
    }
}

/// Text listing the hostnames of a route.
pub open spec fn hosts_desc(route: ExternalRouteInfo) -> Seq<char> {
    if route.hostnames@.len() == 0 {
        "(see route spec)"@
    } else {
        join_seq(strings_view(route.hostnames@), ", "@)
    }
}

/// Debug text of an optional flag.
pub open spec fn opt_bool_text(b: Option<bool>) -> Seq<char> {
    match b {
        Some(true) => "Some(true)"@,
        Some(false) => "Some(false)"@,
        None => "None"@,
    }
}

pub open spec fn bool_text(b: bool) -> Seq<char> {
    if b {
        "true"@
    } else {
        "false"@
    }
}

pub open spec fn ingress_message(ambient: bool, route: ExternalRouteInfo, gw: Seq<char>, hosts: Seq<char>) -> Seq<char> {
    if ambient {
        "Namespace `"@ + route.namespace@ + "` is on ambient dataplane but north–south routes ("@
            + route.kind@ + "/"@ + route.name@ + ") \
                         still target ingress gateway `"@ + gw + "` on a sidecar/demo revision, or HTTPRoute \
                         parents are detached. Public URLs ("@ + hosts + ") will not work until an ambient \
                         ingress Gateway exists and routes attach to it."@
    } else {
        "Namespace `"@ + route.namespace@ + "` exposes `"@ + hosts + "` via "@ + route.kind@ + "/"@
            + route.name@ + " attached to sidecar-revision \
                         ingress `"@ + gw + "`. Migrating workloads to ambient without an ambient ingress \
                         Gateway will detach HTTPRoutes and break external access."@
    }
}

pub open spec fn ingress_evidence(route: ExternalRouteInfo, gw: Seq<char>, hosts: Seq<char>, ready: bool) -> Seq<char> {
    "namespace: "@ + route.namespace@ + "\nroute: "@ + route.kind@ + "/"@ + route.name@
        + "\nhostnames: "@ + hosts + "\nparentGateway: "@ + gw + "\nparentsAttached: "@
        + opt_bool_text(route.parents_attached) + "\nambientIngressProgrammed: "@ + bool_text(ready)
}

/// The ingress finding for one route, `ambient` telling whether its namespace is already
/// on the ambient dataplane.
pub open spec fn ingress_finding(
    ambient: bool,
    route: ExternalRouteInfo,
    fact: RouteIngressFacts,
    ready: bool,
) -> FindingView {
    FindingView {
        id: "traffic.ambient-ingress-gateway"@,
        severity: FindingSeverity::Warning,
        category: FindingCategory::TrafficCompatibility,
        title: if ambient {
            "External URL likely broken: ambient app still on sidecar ingress"@
        } else {
            "Plan ambient ingress before migration: public URL will break"@
        },
        message: ingress_message(ambient, route, gateway_desc(route, fact), hosts_desc(route)),
        namespace: Some(route.namespace@),
        resource: None,
        remediation: Some(AMBIENT_INGRESS_REMEDIATION@),
        doc_url: Some(MIGRATE_DOC@),
        evidence: Some(
            ingress_evidence(route, gateway_desc(route, fact), hosts_desc(route), ready),
        ),
    }
}

/// Findings after the first `k` routes, and the namespaces already reported.
pub open spec fn ingress_scan(
    nss: Seq<NamespaceContext>,
    routes: Seq<ExternalRouteInfo>,
    facts: Seq<RouteIngressFacts>,
    ready: bool,
    k: nat,
) -> (Seq<FindingView>, Set<Seq<char>>)
    decreases k,
{
    if k == 0 {
        (Seq::empty(), Set::empty())
    } else {
        let (fs, seen) = ingress_scan(nss, routes, facts, ready, (k - 1) as nat);
        let route = routes[k - 1];
        let ns = find_ns(nss, route.namespace@);
        if route_needs_warning(ns, route, facts[k - 1], ready) && !seen.contains(route.namespace@) {
            (
                fs.push(ingress_finding(ns->0.ambient_enabled, route, facts[k - 1], ready)),
                seen.insert(route.namespace@),
            )
        } else {
            (fs, seen)
        }
    }
}

/// Findings of the ingress rule for a context and its ingress facts.
pub open spec fn ingress_findings(ctx: RuleContext, facts: IngressFacts) -> Seq<FindingView> {
    if !ctx.ambient_installed || ctx.policies.external_routes@.len() == 0 {
        Seq::empty()
    } else {
        ingress_scan(
            ctx.namespaces@,
            ctx.policies.external_routes@,
            facts.routes@,
            facts.ambient_ingress_ready,
            ctx.policies.external_routes@.len(),
        ).0
    }
}

/// First namespace context with the given name.
pub fn find_namespace_context<'a>(nss: &'a Vec<NamespaceContext>, name: &str) -> (r: Option<&'a NamespaceContext>)
    ensures
        match r {
            Some(n) => find_ns(nss@, name@) == Some(*n),
            None => find_ns(nss@, name@) is None,
        },
{
    let mut i: usize = 0;
    assert(nss@.subrange(0, nss@.len() as int) =~= nss@);
    while i < nss.len()
        invariant
            i <= nss@.len(),
            find_ns(nss@, name@) == find_ns(nss@.subrange(i as int, nss@.len() as int), name@),
        decreases nss@.len() - i,
    {
        let ghost rest = nss@.subrange(i as int, nss@.len() as int);
        assert(rest[0] == nss@[i as int]);
        assert(rest.drop_first() =~= nss@.subrange(i + 1, nss@.len() as int));
        if crate::text::str_eq(nss[i].name.as_str(), name) {
            return Some(&nss[i]);
        }
        i += 1;
    }
    assert(nss@.subrange(i as int, nss@.len() as int).len() == 0);
    None
}

fn opt_bool_string(b: Option<bool>) -> (r: String)
    ensures
        r@ == opt_bool_text(b),
{
    match b {
        Some(true) => String::from_str("Some(true)"),
        Some(false) => String::from_str("Some(false)"),
        None => String::from_str("None"),
    }
}

fn bool_string(b: bool) -> (r: String)
    ensures
        r@ == bool_text(b),
{
    if b {
        String::from_str("true")
    } else {
        String::from_str("false")
    }
}

fn gateway_description(route: &ExternalRouteInfo, fact: &RouteIngressFacts) -> (r: String)
    ensures
        r@ == gateway_desc(*route, *fact),
{
    match &fact.gateway {
        Some(g) => cat3(g.namespace.as_str(), "/", g.name.as_str()),
        None => match (&route.parent_gateway_namespace, &route.parent_gateway_name) {
            (Some(a), Some(b)) => cat3(a.as_str(), "/", b.as_str()),
            _ => String::from_str("unknown gateway"),
        },
    }
}

fn hosts_description(route: &ExternalRouteInfo) -> (r: String)
    ensures
        r@ == hosts_desc(*route),
{
    if route.hostnames.len() == 0 {
        String::from_str("(see route spec)")
    } else {
        join(&route.hostnames, ", ")
    }
}

fn ingress_warning(ambient: bool, route: &ExternalRouteInfo, fact: &RouteIngressFacts, ready: bool) -> (r: Finding)
    ensures
        r@ == ingress_finding(ambient, *route, *fact, ready),
{
    let gw = gateway_description(route, fact);
    let hosts = hosts_description(route);
    let (title, message) = if ambient {
        let mut m = cat3("Namespace `", route.namespace.as_str(), "` is on ambient dataplane but north–south routes (");
        m.append(route.kind.as_str());
        m.append("/");
        m.append(route.name.as_str());
        m.append(") \
                         still target ingress gateway `");
        m.append(gw.as_str());
        m.append("` on a sidecar/demo revision, or HTTPRoute \
                         parents are detached. Public URLs (");
        m.append(hosts.as_str());
        m.append(") will not work until an ambient \
                         ingress Gateway exists and routes attach to it.");
        (String::from_str("External URL likely broken: ambient app still on sidecar ingress"), m)
    } else {
        let mut m = cat3("Namespace `", route.namespace.as_str(), "` exposes `");
        m.append(hosts.as_str());
        m.append("` via ");
        m.append(route.kind.as_str());
        m.append("/");
        m.append(route.name.as_str());
        m.append(" attached to sidecar-revision \
                         ingress `");
        m.append(gw.as_str());
        m.append("`. Migrating workloads to ambient without an ambient ingress \
                         Gateway will detach HTTPRoutes and break external access.");
        (String::from_str("Plan ambient ingress before migration: public URL will break"), m)
    };
    let mut f = finding(
        "traffic.ambient-ingress-gateway",
        FindingSeverity::Warning,
        FindingCategory::TrafficCompatibility,
        title,
        message,
    );
    f.namespace = Some(route.namespace.clone());
    f.doc_url = Some(String::from_str(MIGRATE_DOC));
    f.remediation = Some(String::from_str(AMBIENT_INGRESS_REMEDIATION));
    let mut ev = cat3("namespace: ", route.namespace.as_str(), "\nroute: ");
    ev.append(route.kind.as_str());
    ev.append("/");
    ev.append(route.name.as_str());
    ev.append("\nhostnames: ");
    ev.append(hosts.as_str());
    ev.append("\nparentGateway: ");
    ev.append(gw.as_str());
    ev.append("\nparentsAttached: ");
    let pa = opt_bool_string(route.parents_attached);
    ev.append(pa.as_str());
    ev.append("\nambientIngressProgrammed: ");
    let rd = bool_string(ready);
    ev.append(rd.as_str());
    f.evidence = Some(ev);
    f
}

/// Ambient ingress gateway planning for externally exposed applications.
pub struct AmbientIngressGatewayRule;

impl AmbientIngressGatewayRule {
    pub fn id(&self) -> (r: &'static str)
        ensures
            r@ == "traffic.ambient-ingress-gateway"@,
    {
        "traffic.ambient-ingress-gateway"
    }

    pub fn category(&self) -> (r: FindingCategory)
        ensures
            r == FindingCategory::TrafficCompatibility,
    {
        FindingCategory::TrafficCompatibility
    }

    /// At most one warning per namespace whose externally exposed route would break (or is
    /// broken) on the ambient dataplane, in route order.
    pub fn evaluate(&self, ctx: &RuleContext, facts: &IngressFacts) -> (r: Vec<Finding>)
        requires
            facts.routes@.len() == ctx.policies.external_routes@.len(),
        ensures
            findings_view(r@) == ingress_findings(*ctx, *facts),
    {
        let routes = &ctx.policies.external_routes;
        if !ctx.ambient_installed || routes.len() == 0 {
            return Vec::new();
        }
        let ready = facts.ambient_ingress_ready;
        let mut out: Vec<Finding> = Vec::new();
        let mut seen: Vec<String> = Vec::new();
        let mut i: usize = 0;
        assert(strings_view(seen@) =~= Seq::<Seq<char>>::empty());
        while i < routes.len()
            invariant
                routes == &ctx.policies.external_routes,
                facts.routes@.len() == routes@.len(),
                ready == facts.ambient_ingress_ready,
                i <= routes@.len(),
                findings_view(out@) == ingress_scan(ctx.namespaces@, routes@, facts.routes@, ready, i as nat).0,
                forall|n: Seq<char>| ingress_scan(ctx.namespaces@, routes@, facts.routes@, ready, i as nat).1.contains(n)
                    <==> strings_view(seen@).contains(n),
            decreases routes@.len() - i,
        {
            let route = &routes[i];
            let fact = &facts.routes[i];
            let ghost prev = ingress_scan(ctx.namespaces@, routes@, facts.routes@, ready, i as nat);
            let nsc = find_namespace_context(&ctx.namespaces, route.namespace.as_str());
            match nsc {
                Some(n) => {
                    let is_candidate = n.injection_enabled && !n.ambient_enabled;
                    let is_ambient = n.ambient_enabled;
                    let detached = match route.parents_attached {
                        Some(b) => !b,
                        None => false,
                    };
                    let needs = if is_ambient {
                        fact.uses_sidecar_ingress || detached || !ready
                    } else {
                        fact.uses_sidecar_ingress && !ready
                    };
                    if n.workload_count != 0 && (is_candidate || is_ambient) && needs
                        && !crate::refs::vec_contains_str(&seen, route.namespace.as_str()) {
                        let f = ingress_warning(is_ambient, route, fact, ready);
                        let ghost before = out@;
                        let ghost seen_before = seen@;
                        out.push(f);
                        seen.push(route.namespace.clone());
                        proof {
                            assert(findings_view(out@) =~= findings_view(before).push(f@));
                            assert(strings_view(seen@) =~= strings_view(seen_before).push(route.namespace@));
                            assert forall|x: Seq<char>| ingress_scan(ctx.namespaces@, routes@, facts.routes@, ready, (i + 1) as nat).1.contains(x)
                                <==> strings_view(seen@).contains(x) by {
                                if x != route.namespace@ {
                                    if strings_view(seen@).contains(x) {
                                        let k = choose|k: int| 0 <= k < strings_view(seen@).len() && strings_view(seen@)[k] == x;
                                        assert(strings_view(seen_before)[k] == x);
                                    }
                                    if strings_view(seen_before).contains(x) {
                                        let k = choose|k: int| 0 <= k < strings_view(seen_before).len() && strings_view(seen_before)[k] == x;
                                        assert(strings_view(seen@)[k] == x);
                                    }
                                } else {
                                    assert(strings_view(seen@)[strings_view(seen_before).len() as int] == x);
                                }
                            }
                        }
                    }
                },
                None => {},
            }
            i += 1;
        }
        out
    }
}

/// Fixed set of traffic rules, in the order in which they are evaluated.
#[derive(Clone, Copy, Debug, PartialEq, Eq, Structural)]
pub enum TrafficRule {
    VsHttpRouteConflict,
    AmbientIngressGateway,
    L7Waypoint,
    MixedModeL7Bypass,
    DestinationRuleSubsets,
}

/// Findings of one traffic rule.
pub open spec fn rule_findings(rule: TrafficRule, ctx: RuleContext, facts: IngressFacts) -> Seq<FindingView> {
    match rule {
        TrafficRule::VsHttpRouteConflict => conflict_namespaces(
            strings_view(ctx.policies.virtual_services@),
            strings_view(ctx.policies.http_routes@),
        ).map_values(
            |ns: Seq<char>|
                vs_conflict_finding(
                    ns,
                    strings_view(ctx.policies.virtual_services@),
                    strings_view(ctx.policies.http_routes@),
                ),
        ),
        TrafficRule::AmbientIngressGateway => ingress_findings(ctx, facts),
        TrafficRule::L7Waypoint => strings_view(ctx.policies.l7_authorization_policies@).map_values(
            |n: Seq<char>| l7_finding(n),
        ),
        TrafficRule::MixedModeL7Bypass => if any_injection(ctx.namespaces@) && any_ambient(ctx.namespaces@) {
            seq![mixed_mode_finding()]
        } else {
            Seq::empty()
        },
        TrafficRule::DestinationRuleSubsets => strings_view(ctx.policies.destination_rules_with_subsets@).map_values(
            |n: Seq<char>| dr_subsets_finding(n),
        ),
    }
}

/// Findings of a list of rules, concatenated in rule order.
pub open spec fn registry_findings(rules: Seq<TrafficRule>, ctx: RuleContext, facts: IngressFacts) -> Seq<FindingView>
    decreases rules.len(),
{
    if rules.len() == 0 {
        Seq::empty()
    } else {
        registry_findings(rules.drop_last(), ctx, facts) + rule_findings(rules.last(), ctx, facts)
    }
}

/// Evaluate one traffic rule.
pub fn evaluate_rule(rule: TrafficRule, ctx: &RuleContext, facts: &IngressFacts) -> (r: Vec<Finding>)
    requires
        facts.routes@.len() == ctx.policies.external_routes@.len(),
    ensures
        findings_view(r@) == rule_findings(rule, *ctx, *facts),
{
    match rule {
        TrafficRule::VsHttpRouteConflict => VsHttpRouteConflictRule.evaluate(ctx),
        TrafficRule::AmbientIngressGateway => AmbientIngressGatewayRule.evaluate(ctx, facts),
        TrafficRule::L7Waypoint => L7WaypointRule.evaluate(ctx),
        TrafficRule::MixedModeL7Bypass => MixedModeL7BypassRule.evaluate(ctx),
        TrafficRule::DestinationRuleSubsets => DestinationRuleSubsetsRule.evaluate(ctx),
    }
}

/// Ordered collection of rules.
pub struct RuleRegistry {
    pub rules: Vec<TrafficRule>,
}

impl RuleRegistry {
    /// Empty registry.
    pub fn new() -> (r: RuleRegistry)
        ensures
            r.rules@ == Seq::<TrafficRule>::empty(),
    {
        RuleRegistry { rules: Vec::new() }
    }

    /// Add a rule after those already registered.
    pub fn register(&mut self, rule: TrafficRule)
        ensures
            final(self).rules@ == old(self).rules@.push(rule),
    {
        self.rules.push(rule);
    }

    /// Findings of every registered rule, in registration order.
    pub fn evaluate_all(&self, ctx: &RuleContext, facts: &IngressFacts) -> (r: Vec<Finding>)
        requires
            facts.routes@.len() == ctx.policies.external_routes@.len(),
        ensures
            findings_view(r@) == registry_findings(self.rules@, *ctx, *facts),
    {
        let mut out: Vec<Finding> = Vec::new();
        let mut i: usize = 0;
        while i < self.rules.len()
            invariant
                facts.routes@.len() == ctx.policies.external_routes@.len(),
                i <= self.rules@.len(),
                findings_view(out@) == registry_findings(self.rules@.take(i as int), *ctx, *facts),
            decreases self.rules@.len() - i,
        {
            assert(self.rules@.take(i + 1).drop_last() =~= self.rules@.take(i as int));
            let mut part = evaluate_rule(self.rules[i], ctx, facts);
            let ghost before = out@;
            let ghost pv = part@;
            out.append(&mut part);
            assert(findings_view(out@) =~= findings_view(before) + findings_view(pv));
            i += 1;
        }
        assert(self.rules@.take(self.rules@.len() as int) =~= self.rules@);
        out
    }
}

/// Add the traffic rules to a registry.
pub fn register_traffic_rules(registry: &mut RuleRegistry)
    ensures
        final(registry).rules@ == old(registry).rules@ + seq![
            TrafficRule::VsHttpRouteConflict,
            TrafficRule::AmbientIngressGateway,
            TrafficRule::L7Waypoint,
            TrafficRule::MixedModeL7Bypass,
            TrafficRule::DestinationRuleSubsets,
        ],
{
    registry.register(TrafficRule::VsHttpRouteConflict);
    registry.register(TrafficRule::AmbientIngressGateway);
    registry.register(TrafficRule::L7Waypoint);
    registry.register(TrafficRule::MixedModeL7Bypass);
    registry.register(TrafficRule::DestinationRuleSubsets);
    assert(registry.rules@ =~= old(registry).rules@ + seq![
        TrafficRule::VsHttpRouteConflict,
        TrafficRule::AmbientIngressGateway,
        TrafficRule::L7Waypoint,
        TrafficRule::MixedModeL7Bypass,
        TrafficRule::DestinationRuleSubsets,
    ]);
}

/// Registry holding exactly the traffic rules.
pub fn traffic_registry() -> (r: RuleRegistry)
    ensures
        r.rules@ == seq![
            TrafficRule::VsHttpRouteConflict,
            TrafficRule::AmbientIngressGateway,
            TrafficRule::L7Waypoint,
            TrafficRule::MixedModeL7Bypass,
            TrafficRule::DestinationRuleSubsets,
        ],
{
    let mut registry = RuleRegistry::new();
    register_traffic_rules(&mut registry);
    assert(registry.rules@ =~= seq![
        TrafficRule::VsHttpRouteConflict,
        TrafficRule::AmbientIngressGateway,
        TrafficRule::L7Waypoint,
        TrafficRule::MixedModeL7Bypass,
        TrafficRule::DestinationRuleSubsets,
    ]);
    registry
}


/// A namespace context the ingress rule may warn about: it has workloads and is on the
/// sidecar or the ambient dataplane.
pub open spec fn ingress_eligible(ns: Option<NamespaceContext>) -> bool {
    ns matches Some(n) && n.workload_count > 0 && (n.injection_enabled || n.ambient_enabled)
}

/// A finding of the ingress rule: the ingress warning, on the namespace of one of the
/// routes, whose namespace context is eligible.
pub open spec fn ingress_finding_shape(nss: Seq<NamespaceContext>, routes: Seq<ExternalRouteInfo>, k: int, f: FindingView) -> bool {
    exists|r: int|
        0 <= r < k && f.namespace == Some((#[trigger] routes[r]).namespace@) && ingress_eligible(
            find_ns(nss, routes[r].namespace@),
        )
}

proof fn lemma_ingress_scan(
    nss: Seq<NamespaceContext>,
    routes: Seq<ExternalRouteInfo>,
    facts: Seq<RouteIngressFacts>,
    ready: bool,
    k: nat,
)
    requires
        k <= routes.len(),
        facts.len() == routes.len(),
    ensures
        ({
            let fs = ingress_scan(nss, routes, facts, ready, k).0;
            let seen = ingress_scan(nss, routes, facts, ready, k).1;
            &&& forall|i: int| 0 <= i < fs.len() ==> (#[trigger] fs[i]).namespace is Some && seen.contains(fs[i].namespace->0)
            &&& forall|i: int, j: int| 0 <= i < j < fs.len() ==> (#[trigger] fs[i]).namespace != (#[trigger] fs[j]).namespace
            &&& forall|i: int|
                0 <= i < fs.len() ==> (#[trigger] fs[i]).id == "traffic.ambient-ingress-gateway"@ && fs[i].severity
                    == FindingSeverity::Warning && ingress_finding_shape(nss, routes, k as int, fs[i])
        }),
    decreases k,
{
    if k > 0 {
        lemma_ingress_scan(nss, routes, facts, ready, (k - 1) as nat);
        let prev = ingress_scan(nss, routes, facts, ready, (k - 1) as nat);
        let fs = ingress_scan(nss, routes, facts, ready, k).0;
        let route = routes[k - 1];
        let ns = find_ns(nss, route.namespace@);
        if route_needs_warning(ns, route, facts[k - 1], ready) && !prev.1.contains(route.namespace@) {
            let f = ingress_finding(ns->0.ambient_enabled, route, facts[k - 1], ready);
            assert(fs == prev.0.push(f));
            assert(ingress_finding_shape(nss, routes, k as int, f)) by {
                assert(routes[k - 1] == routes[k - 1]);
            }
            assert forall|i: int| 0 <= i < fs.len() implies (#[trigger] fs[i]).id == "traffic.ambient-ingress-gateway"@ && fs[i].severity
                == FindingSeverity::Warning && ingress_finding_shape(nss, routes, k as int, fs[i]) by {
                if i < prev.0.len() {
                    assert(fs[i] == prev.0[i]);
                    assert(ingress_finding_shape(nss, routes, k - 1, prev.0[i]));
                    let r = choose|r: int|
                        0 <= r < k - 1 && prev.0[i].namespace == Some((#[trigger] routes[r]).namespace@)
                            && ingress_eligible(find_ns(nss, routes[r].namespace@));
                    assert(routes[r] == routes[r]);
                }
            }
            assert forall|i: int, j: int| 0 <= i < j < fs.len() implies (#[trigger] fs[i]).namespace != (#[trigger] fs[j]).namespace by {
                if j < prev.0.len() {
                    assert(fs[i] == prev.0[i] && fs[j] == prev.0[j]);
                } else {
                    assert(fs[i] == prev.0[i]);
                    assert(prev.1.contains(prev.0[i].namespace->0));
                }
            }
            assert forall|i: int| 0 <= i < fs.len() implies (#[trigger] fs[i]).namespace is Some
                && ingress_scan(nss, routes, facts, ready, k).1.contains(fs[i].namespace->0) by {
                if i < prev.0.len() {
                    assert(fs[i] == prev.0[i]);
                }
            }
        } else {
            let fs0 = prev.0;
            assert forall|i: int| 0 <= i < fs0.len() implies (#[trigger] fs0[i]).id == "traffic.ambient-ingress-gateway"@ && fs0[i].severity
                == FindingSeverity::Warning && ingress_finding_shape(nss, routes, k as int, fs0[i]) by {
                assert(ingress_finding_shape(nss, routes, k - 1, fs0[i]));
                let r = choose|r: int|
                    0 <= r < k - 1 && fs0[i].namespace == Some((#[trigger] routes[r]).namespace@)
                        && ingress_eligible(find_ns(nss, routes[r].namespace@));
                assert(routes[r] == routes[r]);
            }
        }
    }
}

/// The ingress rule says nothing without ambient installed or without external routes;
/// otherwise it warns at most once per namespace, and each warning is on the namespace of
/// an external route whose namespace has workloads on the sidecar or ambient dataplane.
pub proof fn law_ingress_findings_shape(ctx: RuleContext, facts: IngressFacts)
    requires
        facts.routes@.len() == ctx.policies.external_routes@.len(),
    ensures
        (!ctx.ambient_installed || ctx.policies.external_routes@.len() == 0) ==> ingress_findings(ctx, facts).len() == 0,
        forall|i: int, j: int|
            0 <= i < j < ingress_findings(ctx, facts).len() ==> (#[trigger] ingress_findings(ctx, facts)[i]).namespace
                != (#[trigger] ingress_findings(ctx, facts)[j]).namespace,
        forall|i: int|
            0 <= i < ingress_findings(ctx, facts).len() ==> (#[trigger] ingress_findings(ctx, facts)[i]).id
                == "traffic.ambient-ingress-gateway"@ && ingress_findings(ctx, facts)[i].severity == FindingSeverity::Warning
                && ingress_finding_shape(
                ctx.namespaces@,
                ctx.policies.external_routes@,
                ctx.policies.external_routes@.len() as int,
                ingress_findings(ctx, facts)[i],
            ),
{
    if ctx.ambient_installed && ctx.policies.external_routes@.len() > 0 {
        lemma_ingress_scan(
            ctx.namespaces@,
            ctx.policies.external_routes@,
            facts.routes@,
            facts.ambient_ingress_ready,
            ctx.policies.external_routes@.len(),
        );
    }
}


/// Some reference of `refs` is in namespace `ns`.
pub open spec fn has_ref_in(refs: Seq<Seq<char>>, ns: Seq<char>) -> bool {
    exists|i: int| 0 <= i < refs.len() && resource_namespace(#[trigger] refs[i]) == Some(ns)
}

/// The namespaces that both some VirtualService and some HTTPRoute are in.
pub open spec fn both_apis(vs: Seq<Seq<char>>, hr: Seq<Seq<char>>) -> Set<Seq<char>> {
    Set::new(|ns: Seq<char>| has_ref_in(vs, ns) && has_ref_in(hr, ns))
}

proof fn lemma_has_ref_in_last(refs: Seq<Seq<char>>, ns: Seq<char>)
    requires
        refs.len() > 0,
    ensures
        has_ref_in(refs, ns) <==> (has_ref_in(refs.drop_last(), ns) || resource_namespace(refs.last()) == Some(ns)),
{
    let p = refs.drop_last();
    if has_ref_in(refs, ns) {
        let i = choose|i: int| 0 <= i < refs.len() && resource_namespace(#[trigger] refs[i]) == Some(ns);
        if i < p.len() {
            assert(p[i] == refs[i]);
        }
    }
    if has_ref_in(p, ns) {
        let i = choose|i: int| 0 <= i < p.len() && resource_namespace(#[trigger] p[i]) == Some(ns);
        assert(refs[i] == p[i]);
    }
    if resource_namespace(refs.last()) == Some(ns) {
        assert(resource_namespace(refs[refs.len() - 1]) == Some(ns));
    }
}

proof fn lemma_namespaces_of_members(refs: Seq<Seq<char>>, ns: Seq<char>)
    ensures
        namespaces_of(refs).contains(ns) <==> has_ref_in(refs, ns),
    decreases refs.len(),
{
    if refs.len() > 0 {
        lemma_namespaces_of_members(refs.drop_last(), ns);
        lemma_has_ref_in_last(refs, ns);
        let p = namespaces_of(refs.drop_last());
        match resource_namespace(refs.last()) {
            Some(n) => if !p.contains(n) {
                assert(p.push(n).contains(ns) <==> (p.contains(ns) || n == ns)) by {
                    if p.push(n).contains(ns) {
                        let k = choose|k: int| 0 <= k < p.push(n).len() && p.push(n)[k] == ns;
                        if k < p.len() {
                            assert(p[k] == ns);
                        }
                    }
                    if p.contains(ns) {
                        let k = choose|k: int| 0 <= k < p.len() && p[k] == ns;
                        assert(p.push(n)[k] == ns);
                    }
                    assert(p.push(n)[p.len() as int] == n);
                }
            },
            None => {},
        }
    }
}

proof fn lemma_refs_in_nonempty(refs: Seq<Seq<char>>, ns: Seq<char>)
    ensures
        refs_in(refs, ns).len() > 0 <==> has_ref_in(refs, ns),
    decreases refs.len(),
{
    if refs.len() > 0 {
        lemma_refs_in_nonempty(refs.drop_last(), ns);
        lemma_has_ref_in_last(refs, ns);
    }
}

proof fn lemma_with_routes(nss: Seq<Seq<char>>, hr: Seq<Seq<char>>)
    ensures
        forall|x: Seq<char>| #[trigger] with_routes(nss, hr).contains(x) <==> (nss.contains(x) && refs_in(hr, x).len() > 0),
        nss.no_duplicates() ==> with_routes(nss, hr).no_duplicates(),
    decreases nss.len(),
{
    if nss.len() > 0 {
        let q = nss.drop_last();
        lemma_with_routes(q, hr);
        let p = with_routes(q, hr);
        let w = with_routes(nss, hr);
        assert forall|x: Seq<char>| #[trigger] nss.contains(x) <==> (q.contains(x) || nss.last() == x) by {
            if nss.contains(x) {
                let k = choose|k: int| 0 <= k < nss.len() && nss[k] == x;
                if k < q.len() {
                    assert(q[k] == x);
                }
            }
            if q.contains(x) {
                let k = choose|k: int| 0 <= k < q.len() && q[k] == x;
                assert(nss[k] == x);
            }
            assert(nss[nss.len() - 1] == nss.last());
        }
        if refs_in(hr, nss.last()).len() > 0 {
            assert(w == p.push(nss.last()));
            assert forall|x: Seq<char>| #[trigger] w.contains(x) <==> (p.contains(x) || nss.last() == x) by {
                if w.contains(x) {
                    let k = choose|k: int| 0 <= k < w.len() && w[k] == x;
                    if k < p.len() {
                        assert(p[k] == x);
                    }
                }
                if p.contains(x) {
                    let k = choose|k: int| 0 <= k < p.len() && p[k] == x;
                    assert(w[k] == x);
                }
                assert(w[p.len() as int] == nss.last());
            }
            if nss.no_duplicates() {
                assert(q.no_duplicates());
                assert(!q.contains(nss.last())) by {
                    if q.contains(nss.last()) {
                        let k = choose|k: int| 0 <= k < q.len() && q[k] == nss.last();
                        assert(nss[k] == nss[nss.len() - 1]);
                    }
                }
                assert forall|i: int, j: int| 0 <= i < w.len() && 0 <= j < w.len() && i != j implies w[i] != w[j] by {
                    if i < p.len() && j < p.len() {
                        assert(w[i] == p[i] && w[j] == p[j]);
                    } else if i < p.len() {
                        assert(w[i] == p[i]);
                        assert(p.contains(p[i]));
                    } else if j < p.len() {
                        assert(w[j] == p[j]);
                        assert(p.contains(p[j]));
                    }
                }
            }
        } else {
            assert(w == p);
            if nss.no_duplicates() {
                assert(q.no_duplicates());
            }
        }
    }
}

/// The VirtualService/HTTPRoute conflict rule warns exactly once for each namespace that
/// both some VirtualService and some HTTPRoute are in, and for no other: the namespaces
/// it reports are distinct and make up that intersection. Each warning is the conflict
/// warning on its namespace, with no resource.
pub proof fn law_conflict_namespaces_are_intersection(vs: Seq<Seq<char>>, hr: Seq<Seq<char>>)
    ensures
        conflict_namespaces(vs, hr).no_duplicates(),
        forall|x: Seq<char>| #[trigger] conflict_namespaces(vs, hr).contains(x) <==> (has_ref_in(vs, x) && has_ref_in(hr, x)),
        conflict_namespaces(vs, hr).to_set() == both_apis(vs, hr),
        conflict_namespaces(vs, hr).len() == both_apis(vs, hr).len(),
        forall|i: int|
            0 <= i < conflict_namespaces(vs, hr).len() ==> {
                let f = vs_conflict_finding(#[trigger] conflict_namespaces(vs, hr)[i], vs, hr);
                &&& f.id == "traffic.vs-httproute-conflict"@
                &&& f.severity == FindingSeverity::Warning
                &&& f.resource is None
                &&& f.namespace == Some(conflict_namespaces(vs, hr)[i])
            },
{
    crate::attribution::lemma_namespaces_of_distinct(vs);
    lemma_with_routes(namespaces_of(vs), hr);
    let c = conflict_namespaces(vs, hr);
    assert forall|x: Seq<char>| #[trigger] c.contains(x) <==> (has_ref_in(vs, x) && has_ref_in(hr, x)) by {
        lemma_namespaces_of_members(vs, x);
        lemma_refs_in_nonempty(hr, x);
    }
    assert(c.to_set() =~= both_apis(vs, hr));
    c.unique_seq_to_set();
}

} // verus!
