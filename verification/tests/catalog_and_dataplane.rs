use ambientor::applications::{
    build_cluster_assessment, derive_risk_level, hostnames_from_istio_objects, ingress_gateway_namespaces_from_pods,
    HostnameIndex, PodInfo, RoutingObject,
};
use ambientor::attribution::{finding_namespace, partition_findings_by_namespace};
use ambientor::catalog::RiskLevel;
use ambientor::cluster_view::{ApplicationIdentity, NamespaceSnapshot};
use ambientor::dataplane::{
    derive_dataplane_mode, derive_dataplane_mode_from_stored, is_ambient_mesh_scope, is_migration_candidate,
    DataplaneMode, NamespaceMeshFacts,
};
use ambientor::deep_analysis::enrich_ambient_application;
use ambientor::labels::Labels;
use ambientor::model::{
    Finding, FindingCategory, FindingSeverity, FindingSummary, MeshEnrollment, MeshEnrollmentMode, MeshInstance,
};
use ambientor::rules::{NamespaceContext, PolicyContext, RuleContext};

fn labels(pairs: &[(&str, &str)]) -> Labels {
    let mut l = Labels::new();
    for (k, v) in pairs {
        l.insert((*k).to_string(), (*v).to_string());
    }
    l
}

fn mesh(revision: &str, cp: &str, version: Option<&str>, mode: MeshEnrollmentMode, enrolled: usize) -> MeshInstance {
    MeshInstance {
        revision: revision.into(),
        discovery_label: "mesh-ambient".into(),
        control_plane_namespace: cp.into(),
        version: version.map(String::from),
        ambient: true,
        enrolled_namespace_count: enrolled,
        enrollment: MeshEnrollment {
            mode,
            revision: revision.into(),
            istio_revision: Some(revision.into()),
            revision_tag: None,
            discovery_label_key: Some("istio-discovery".into()),
            discovery_label_value: Some("mesh-ambient".into()),
            member_roll_namespace: None,
            from_istiod_config: false,
        },
    }
}

fn ambient_mesh() -> MeshInstance {
    mesh("ambient-v1", "ambient-istio-system", None, MeshEnrollmentMode::DiscoveryLabel, 1)
}

fn finding(id: &str, namespace: Option<&str>, resource: Option<&str>) -> Finding {
    Finding {
        id: id.into(),
        severity: FindingSeverity::Warning,
        category: FindingCategory::TrafficCompatibility,
        title: String::new(),
        message: String::new(),
        namespace: namespace.map(String::from),
        resource: resource.map(String::from),
        remediation: None,
        doc_url: None,
        evidence: None,
    }
}

fn app_facts() -> NamespaceMeshFacts {
    NamespaceMeshFacts {
        is_application_namespace: true,
        is_ambient_control_plane_namespace: false,
        is_infrastructure_identity: false,
    }
}

#[test]
fn ambient_from_dataplane_label() {
    let l = labels(&[("istio.io/dataplane-mode", "ambient")]);
    assert_eq!(derive_dataplane_mode(&l, None), DataplaneMode::Ambient);
}

#[test]
fn migration_candidate_excludes_ambient_dataplane() {
    let ambient_labels = labels(&[("istio.io/dataplane-mode", "ambient")]);
    let none = Labels::new();
    let facts = app_facts();
    assert!(!is_migration_candidate(DataplaneMode::Ambient, 3, &ambient_labels, &facts));
    assert!(is_migration_candidate(DataplaneMode::Sidecar, 3, &none, &facts));
    assert!(!is_migration_candidate(DataplaneMode::Sidecar, 0, &none, &facts));
    assert!(!is_migration_candidate(DataplaneMode::NotEnrolled, 3, &none, &facts));
    let injected = labels(&[("istio-injection", "enabled")]);
    assert!(is_migration_candidate(DataplaneMode::NotEnrolled, 3, &injected, &facts));
    assert!(!is_migration_candidate(DataplaneMode::Sidecar, 3, &ambient_labels, &facts));
}

#[test]
fn migration_candidate_excludes_ztunnel_infra() {
    // `ambient-v1-28-6-istio-system` with only ztunnel pods: infrastructure identity.
    let facts = NamespaceMeshFacts {
        is_application_namespace: true,
        is_ambient_control_plane_namespace: false,
        is_infrastructure_identity: true,
    };
    assert!(!is_migration_candidate(DataplaneMode::Sidecar, 1, &Labels::new(), &facts));
}

#[test]
fn migration_candidate_excludes_ambient_control_plane_namespace() {
    let facts = NamespaceMeshFacts {
        is_application_namespace: true,
        is_ambient_control_plane_namespace: true,
        is_infrastructure_identity: false,
    };
    assert!(!is_migration_candidate(DataplaneMode::Sidecar, 3, &Labels::new(), &facts));
}

#[test]
fn sidecar_when_enrolled_on_ambient_cp_without_label() {
    let mesh = ambient_mesh();
    let l = labels(&[("istio-discovery", "mesh-ambient")]);
    // The mesh's discovery label selects the namespace.
    assert_eq!(derive_dataplane_mode(&l, Some(true)), DataplaneMode::Sidecar);
    assert!(is_ambient_mesh_scope(DataplaneMode::Sidecar, Some(&mesh)));
}

#[test]
fn not_enrolled_without_labels() {
    assert_eq!(derive_dataplane_mode(&Labels::new(), None), DataplaneMode::NotEnrolled);
    assert_eq!(derive_dataplane_mode_from_stored(&Labels::new(), None, None), DataplaneMode::NotEnrolled);
}

#[test]
fn critical_risk_when_blockers() {
    let summary = FindingSummary { blockers: 1, warnings: 0, info: 0 };
    assert_eq!(derive_risk_level(&summary, 90), RiskLevel::Critical);
    let clean = FindingSummary { blockers: 0, warnings: 0, info: 0 };
    assert_eq!(derive_risk_level(&clean, 40), RiskLevel::High);
    assert_eq!(derive_risk_level(&clean, 79), RiskLevel::Medium);
    assert_eq!(derive_risk_level(&clean, 80), RiskLevel::Low);
}

fn ztunnel_identity(app_pods: u32) -> ApplicationIdentity {
    ApplicationIdentity {
        application_name: "ztunnel".into(),
        app_pod_count: app_pods,
        workload_components: vec!["ztunnel".into()],
        is_mesh_infrastructure: true,
    }
}

#[test]
fn ztunnel_not_migration_candidate() {
    let m = mesh("ambient-v1-28-6", "ambient-v1-28-6-istio-system", Some("1.28.6"), MeshEnrollmentMode::RevisionAndDiscovery, 0);
    let ns = NamespaceSnapshot {
        name: "ambient-v1-28-6-istio-system".into(),
        labels: Some(labels(&[("istio-discovery", "mesh-ambient")])),
        is_application_namespace: false,
        is_ambient_control_plane_namespace: true,
        identity: Some(ztunnel_identity(1)),
        enrolled_on_mesh: vec![true],
    };
    let ctx = RuleContext { ambient_installed: true, ..Default::default() };
    let run = build_cluster_assessment(
        "ambientor-system/cl02",
        &ctx,
        &[],
        &vec![ns],
        &vec![],
        &vec![m],
        &HostnameIndex { pairs: vec![] },
        &vec![],
    );
    assert!(
        run.applications.iter().all(|a| !a.migration_candidate),
        "expected no migration candidates, got {:?}",
        run.applications.iter().filter(|a| a.migration_candidate).map(|a| &a.application_name).collect::<Vec<_>>()
    );
    assert!(
        run.applications.is_empty(),
        "infra-only namespace should not appear in catalog, got {:?}",
        run.applications.iter().map(|a| &a.namespace).collect::<Vec<_>>()
    );
}

#[test]
fn ztunnel_only_enrolled_namespace_not_in_catalog() {
    let m = mesh("ambient-v1-28-6", "ambient-v1-28-6-istio-system", Some("1.28.6"), MeshEnrollmentMode::RevisionAndDiscovery, 1);
    // Non-standard namespace name (not *-istio-system) with only ztunnel pods.
    let ns = NamespaceSnapshot {
        name: "mesh-dataplane".into(),
        labels: Some(labels(&[("istio-discovery", "mesh-ambient")])),
        is_application_namespace: true,
        is_ambient_control_plane_namespace: false,
        identity: Some(ztunnel_identity(0)),
        enrolled_on_mesh: vec![true],
    };
    let ctx = RuleContext {
        ambient_installed: true,
        namespaces: vec![NamespaceContext {
            name: "mesh-dataplane".into(),
            injection_enabled: false,
            ambient_enabled: false,
            workload_count: 1,
            has_vm_workloads: false,
        }],
        ..Default::default()
    };
    let run = build_cluster_assessment(
        "ambientor-system/cl02",
        &ctx,
        &[],
        &vec![ns],
        &vec![],
        &vec![m],
        &HostnameIndex { pairs: vec![] },
        &vec![],
    );
    assert!(run.applications.is_empty(), "ztunnel-only namespace must not be cataloged: {:?}", run.applications);
}

#[test]
fn skips_enrollment_nag_on_ambient_istiod() {
    let mesh = ambient_mesh();
    let mut nag = finding("enrollment.missing-ambient-dataplane", Some("bookinfo"), None);
    nag.category = FindingCategory::SidecarDependency;
    nag.title = "should remove".into();
    let mut findings = vec![nag];
    let mut suggestions = Vec::new();
    enrich_ambient_application(
        "bookinfo",
        DataplaneMode::Sidecar,
        Some(&mesh),
        &RuleContext::default(),
        &mut findings,
        &mut suggestions,
        true,
        5,
    );
    assert!(!findings.iter().any(|f| f.id == "enrollment.missing-ambient-dataplane"));
    assert!(findings.iter().any(|f| f.id == "traffic.ambient-routing-inventory"));
}

#[test]
fn enrichment_outside_ambient_scope_changes_nothing() {
    let nag = finding("enrollment.missing-ambient-dataplane", Some("bookinfo"), None);
    let mut findings = vec![nag];
    let mut suggestions = Vec::new();
    enrich_ambient_application(
        "bookinfo",
        DataplaneMode::Sidecar,
        None,
        &RuleContext::default(),
        &mut findings,
        &mut suggestions,
        true,
        5,
    );
    assert_eq!(findings.len(), 1);
    assert!(suggestions.is_empty());
}

#[test]
fn parses_namespace_from_resource_ref() {
    let f = finding("traffic.destination-rule-subsets", None, Some("demo-vm/dr-egressgateway"));
    assert_eq!(finding_namespace(&f).as_deref(), Some("demo-vm"));
}

#[test]
fn fans_out_vs_httproute_blocker_to_policy_namespaces() {
    let f = finding("traffic.vs-httproute-conflict", None, None);
    let ctx = RuleContext {
        policies: PolicyContext {
            virtual_services: vec!["bookinfo/reviews".into()],
            http_routes: vec!["mesh-sidecar-1/app-route".into()],
            ..Default::default()
        },
        ..Default::default()
    };
    let (by_ns, cluster) = partition_findings_by_namespace(&[f], &ctx);
    assert!(cluster.is_empty());
    assert!(by_ns.get("bookinfo").is_some());
    assert!(by_ns.get("mesh-sidecar-1").is_some());
}

fn routing(ns: Option<&str>, hosts: Option<Vec<Option<&str>>>) -> RoutingObject {
    RoutingObject { namespace: ns.map(String::from), hosts: hosts.map(|h| h.into_iter().map(|x| x.map(String::from)).collect()) }
}

#[test]
fn hostnames_indexed_by_namespace() {
    let vs = vec![
        routing(Some("shop"), Some(vec![Some("shop.example.com"), None, Some("api.example.com")])),
        routing(None, Some(vec![Some("bare.example.com")])),
        routing(Some("cart"), None),
    ];
    let hr = vec![routing(Some("shop"), Some(vec![Some("api.example.com")])), routing(Some("cart"), Some(vec![Some("cart.example.com")]))];
    let idx = hostnames_from_istio_objects(&vs, &hr);
    let pairs: Vec<(&str, &str)> = idx.pairs.iter().map(|(n, h)| (n.as_str(), h.as_str())).collect();
    assert_eq!(pairs, vec![
        ("", "bare.example.com"),
        ("cart", "cart.example.com"),
        ("shop", "api.example.com"),
        ("shop", "shop.example.com"),
    ]);
}

#[test]
fn ingress_gateway_namespaces_found_by_labels() {
    let pod = |ns: Option<&str>, pairs: &[(&str, &str)]| PodInfo { namespace: ns.map(String::from), labels: Some(labels(pairs)) };
    let pods = vec![
        pod(Some("istio-ingress"), &[("app", "istio-ingressgateway")]),
        pod(Some("gw"), &[("istio", "ingressgateway")]),
        pod(Some("gw"), &[("app", "my-ingressgateway-v2")]),
        pod(Some("edge"), &[("istio", "ingress-east")]),
        pod(Some("shop"), &[("app", "shop")]),
        pod(None, &[("istio", "ingressgateway")]),
        PodInfo { namespace: Some("bare".into()), labels: None },
    ];
    let mut ns = ingress_gateway_namespaces_from_pods(&pods);
    ns.sort();
    assert_eq!(ns, vec!["edge".to_string(), "gw".to_string(), "istio-ingress".to_string()]);
}
