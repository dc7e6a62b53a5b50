use ambientor::model::{FindingSeverity, MeshEnrollment, MeshEnrollmentMode, MeshInstance};
use ambientor::rules::{ExternalRouteInfo, IngressGatewayInfo, NamespaceContext, PolicyContext, RuleContext};
use ambientor::traffic::{
    register_traffic_rules, traffic_registry, AmbientIngressGatewayRule, DestinationRuleSubsetsRule, GatewayRef,
    IngressFacts, MixedModeL7BypassRule, RouteIngressFacts, RuleRegistry, TrafficRule, VsHttpRouteConflictRule,
};

#[test]
fn mixed_mode_warning() {
    let ctx = RuleContext {
        namespaces: vec![
            NamespaceContext { name: "a".into(), injection_enabled: true, ..Default::default() },
            NamespaceContext { name: "b".into(), ambient_enabled: true, ..Default::default() },
        ],
        ..Default::default()
    };
    let findings = MixedModeL7BypassRule.evaluate(&ctx);
    assert_eq!(findings.len(), 1);
    assert_eq!(findings[0].severity, FindingSeverity::Warning);
}

#[test]
fn destination_rule_subsets_warning() {
    let ctx = RuleContext {
        policies: PolicyContext {
            destination_rules_with_subsets: vec!["default/reviews".into()],
            ..Default::default()
        },
        ..Default::default()
    };
    let findings = DestinationRuleSubsetsRule.evaluate(&ctx);
    assert_eq!(findings.len(), 1);
    assert_eq!(findings[0].severity, FindingSeverity::Warning);
    assert!(findings[0].remediation.is_some());
}

#[test]
fn ambient_ingress_warning_before_migration() {
    let ctx = RuleContext {
        ambient_installed: true,
        namespaces: vec![NamespaceContext {
            name: "bookinfo-demo1".into(),
            injection_enabled: true,
            ambient_enabled: false,
            workload_count: 4,
            ..Default::default()
        }],
        policies: PolicyContext {
            ingress_gateways: vec![IngressGatewayInfo {
                namespace: "bookinfo-gateway".into(),
                name: "demo-gw".into(),
                istio_revision: Some("demo".into()),
                discovery_label: Some("mesh-demo".into()),
                programmed: true,
                gateway_class: Some("istio".into()),
            }],
            external_routes: vec![ExternalRouteInfo {
                namespace: "bookinfo-demo1".into(),
                name: "bookinfo".into(),
                kind: "HTTPRoute".into(),
                hostnames: vec!["demo1.example.com".into()],
                parent_gateway_namespace: Some("bookinfo-gateway".into()),
                parent_gateway_name: Some("demo-gw".into()),
                parents_attached: Some(true),
            }],
            ..Default::default()
        },
        ..Default::default()
    };
    // The only gateway is on the sidecar revision `demo`, so no ambient ingress is ready
    // and the route goes through sidecar ingress.
    let facts = IngressFacts {
        ambient_ingress_ready: false,
        routes: vec![RouteIngressFacts {
            uses_sidecar_ingress: true,
            gateway: Some(GatewayRef { namespace: "bookinfo-gateway".into(), name: "demo-gw".into() }),
        }],
    };
    let findings = AmbientIngressGatewayRule.evaluate(&ctx, &facts);
    assert_eq!(findings.len(), 1);
    assert_eq!(findings[0].id, "traffic.ambient-ingress-gateway");
    assert!(findings[0].remediation.as_ref().is_some_and(|r| r.contains("Option A")));
}

#[test]
fn vs_httproute_is_warning_not_blocker() {
    let ctx = RuleContext {
        policies: PolicyContext {
            virtual_services: vec!["bookinfo/reviews".into()],
            http_routes: vec!["bookinfo/route".into()],
            ..Default::default()
        },
        ..Default::default()
    };
    let findings = VsHttpRouteConflictRule.evaluate(&ctx);
    assert_eq!(findings.len(), 1);
    assert_eq!(findings[0].severity, FindingSeverity::Warning);
    assert_eq!(findings[0].namespace.as_deref(), Some("bookinfo"));
}

#[test]
fn vs_httproute_no_conflict_when_types_in_different_namespaces() {
    let ctx = RuleContext {
        policies: PolicyContext {
            virtual_services: vec!["bookinfo-direct-4/reviews".into()],
            http_routes: vec!["bookinfo-direct-1/route".into(), "bookinfo-direct-2/route".into()],
            ..Default::default()
        },
        ..Default::default()
    };
    let findings = VsHttpRouteConflictRule.evaluate(&ctx);
    assert!(findings.is_empty());
}

#[test]
fn registry_holds_traffic_rules_in_order() {
    let registry = traffic_registry();
    assert_eq!(
        registry.rules,
        vec![
            TrafficRule::VsHttpRouteConflict,
            TrafficRule::AmbientIngressGateway,
            TrafficRule::L7Waypoint,
            TrafficRule::MixedModeL7Bypass,
            TrafficRule::DestinationRuleSubsets,
        ]
    );
    let mut r = RuleRegistry::new();
    register_traffic_rules(&mut r);
    register_traffic_rules(&mut r);
    assert_eq!(r.rules.len(), 10);
}

#[test]
fn ambient_namespace_with_ready_ingress_gets_no_warning() {
    let ctx = RuleContext {
        ambient_installed: true,
        namespaces: vec![NamespaceContext {
            name: "shop".into(),
            ambient_enabled: true,
            workload_count: 2,
            ..Default::default()
        }],
        policies: PolicyContext {
            external_routes: vec![ExternalRouteInfo {
                namespace: "shop".into(),
                name: "web".into(),
                kind: "HTTPRoute".into(),
                parents_attached: Some(true),
                ..Default::default()
            }],
            ..Default::default()
        },
        ..Default::default()
    };
    let facts = IngressFacts {
        ambient_ingress_ready: true,
        routes: vec![RouteIngressFacts { uses_sidecar_ingress: false, gateway: None }],
    };
    assert!(AmbientIngressGatewayRule.evaluate(&ctx, &facts).is_empty());
}

#[test]
fn assessment_pipeline_scores_registry_findings() {
    let ctx = RuleContext {
        namespaces: vec![
            NamespaceContext { name: "a".into(), injection_enabled: true, ..Default::default() },
            NamespaceContext { name: "b".into(), ambient_enabled: true, ..Default::default() },
        ],
        policies: PolicyContext { destination_rules_with_subsets: vec!["a/reviews".into()], ..Default::default() },
        ..Default::default()
    };
    let facts = IngressFacts { ambient_ingress_ready: false, routes: vec![] };
    let result = ambientor::inventory::run_assessment(&traffic_registry(), &ctx, &facts);
    let direct = traffic_registry().evaluate_all(&ctx, &facts);
    assert_eq!(result.findings.len(), direct.len());
    assert_eq!(result.findings.len(), 2);
    assert_eq!(result.summary.warnings, 2);
    assert_eq!(result.summary.blockers, 0);
    let scores = ambientor::scoring::compute_scores(&result.findings);
    assert_eq!(result.scores, scores);
    assert!(result.scores.traffic_compatibility < 100);
}

#[test]
fn cluster_identity_counts_ambient_meshes() {
    let mesh = |ambient: bool| MeshInstance {
        revision: "r".into(),
        discovery_label: String::new(),
        control_plane_namespace: "istio-system".into(),
        version: None,
        ambient,
        enrolled_namespace_count: 0,
        enrollment: MeshEnrollment {
            mode: MeshEnrollmentMode::Revision,
            revision: "r".into(),
            istio_revision: None,
            revision_tag: None,
            discovery_label_key: None,
            discovery_label_value: None,
            member_roll_namespace: None,
            from_istiod_config: false,
        },
    };
    let c = ambientor::inventory::cluster_meta("prod".into(), true, "Ossm".into(), Some("1.24".into()), &vec![mesh(true), mesh(false), mesh(true)]);
    assert_eq!(c.platform, "OpenShift");
    assert_eq!((c.mesh_instance_count, c.ambient_mesh_count), (3, 2));
    assert_eq!(c.mesh_flavor, "Ossm");
    let k = ambientor::inventory::cluster_meta("dev".into(), false, "Istio".into(), None, &vec![]);
    assert_eq!((k.platform.as_str(), k.ambient_mesh_count), ("Kubernetes", 0));
}

#[test]
fn vs_httproute_conflicts_are_the_intersection() {
    let ctx = RuleContext {
        policies: PolicyContext {
            virtual_services: vec!["a/vs1".into(), "b/vs2".into(), "b/vs3".into(), "c/vs4".into(), "bad".into()],
            http_routes: vec!["b/hr1".into(), "c/hr2".into(), "d/hr3".into()],
            ..Default::default()
        },
        ..Default::default()
    };
    let findings = VsHttpRouteConflictRule.evaluate(&ctx);
    let nss: Vec<&str> = findings.iter().map(|f| f.namespace.as_deref().unwrap()).collect();
    assert_eq!(nss, vec!["b", "c"]);
    assert!(findings.iter().all(|f| f.id == "traffic.vs-httproute-conflict" && f.resource.is_none()));
    assert!(findings.iter().all(|f| f.severity == FindingSeverity::Warning));
}
