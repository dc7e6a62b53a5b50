use ambientor::catalog::{ApplicationAssessmentRecord, ClusterAssessmentRun, RiskLevel};
use ambientor::cluster_view::{build_dashboard, build_dashboard_at, ApplicationIdentity, ClusterSnapshot, NamespaceSnapshot};
use ambientor::compute::{
    overlay_fleet_rollout_status, overlay_rollout_status, status_from_rollout_phase, AssessmentIndex, AssessmentNsInfo,
    ClusterPhases,
};
use ambientor::dashboard::{
    ApplicationMigrationStatus, ClusterDashboard, FleetClusterDashboard, FleetDashboardResponse, StatusCounts,
};
use ambientor::from_run::{apply_cluster_ref_metadata, dashboard_from_assessment_run, dashboard_from_run_at};
use ambientor::labels::Labels;
use ambientor::model::{
    AssessmentScores, Finding, FindingCategory, FindingSeverity, FindingSummary, MeshEnrollment, MeshEnrollmentMode,
    MeshInstance,
};

fn labels(pairs: &[(&str, &str)]) -> Labels {
    let mut l = Labels::new();
    for (k, v) in pairs {
        l.insert((*k).to_string(), (*v).to_string());
    }
    l
}

fn mesh(revision: &str, discovery: &str, ambient: bool) -> MeshInstance {
    MeshInstance {
        revision: revision.into(),
        discovery_label: discovery.into(),
        control_plane_namespace: format!("{revision}-system"),
        version: Some("1.24".into()),
        ambient,
        enrolled_namespace_count: 0,
        enrollment: MeshEnrollment {
            mode: MeshEnrollmentMode::Revision,
            revision: revision.into(),
            istio_revision: None,
            revision_tag: None,
            discovery_label_key: None,
            discovery_label_value: None,
            member_roll_namespace: None,
            from_istiod_config: false,
        },
    }
}

fn identity(app: &str, pods: u32, infra: bool) -> Option<ApplicationIdentity> {
    Some(ApplicationIdentity {
        application_name: app.into(),
        app_pod_count: pods,
        workload_components: vec![app.into()],
        is_mesh_infrastructure: infra,
    })
}

fn ns(name: &str, l: Labels, app_ns: bool, id: Option<ApplicationIdentity>) -> NamespaceSnapshot {
    NamespaceSnapshot {
        name: name.into(),
        labels: Some(l),
        is_application_namespace: app_ns,
        is_ambient_control_plane_namespace: false,
        identity: id,
        enrolled_on_mesh: vec![false, false],
    }
}

fn blocker() -> Finding {
    Finding {
        id: "b".into(),
        severity: FindingSeverity::Blocker,
        category: FindingCategory::Readiness,
        title: "t".into(),
        message: "m".into(),
        namespace: Some("cart".into()),
        resource: None,
        remediation: None,
        doc_url: None,
        evidence: None,
    }
}

fn snapshot() -> ClusterSnapshot {
    ClusterSnapshot {
        cluster_ref: "in-cluster".into(),
        cluster_name: "Hub cluster".into(),
        is_openshift: false,
        mesh_flavor: "Istio".into(),
        istio_version: Some("1.24.2".into()),
        meshes: vec![mesh("rev-a", "mesh-a", false), mesh("amb", "mesh-b", true)],
        namespaces: vec![
            ns("shop", labels(&[("istio.io/rev", "rev-a")]), true, identity("shop-app", 2, false)),
            ns(
                "bookinfo",
                labels(&[("istio-discovery", "mesh-b"), ("istio.io/dataplane-mode", "ambient")]),
                true,
                identity("bookinfo", 3, false),
            ),
            ns("cart", labels(&[("istio.io/rev", "rev-a")]), true, identity("a-cart", 1, false)),
            ns("gateways", labels(&[("istio.io/rev", "rev-a")]), true, identity("ingress", 2, true)),
            ns("idle", labels(&[("istio.io/rev", "rev-a")]), true, identity("idle", 0, false)),
            ns("kube-system", labels(&[("istio.io/rev", "rev-a")]), false, identity("dns", 2, false)),
            ns("elsewhere", labels(&[("istio.io/rev", "rev-z")]), true, identity("other", 2, false)),
        ],
        assessments: AssessmentIndex {
            entries: vec![AssessmentNsInfo {
                namespace: "cart".into(),
                name: "assess-1".into(),
                findings: vec![blocker()],
                has_blocker: true,
                scanned: true,
            }],
        },
        rollouts: labels(&[("shop", "Running")]),
        inventories: vec![],
    }
}

#[test]
fn cluster_dashboard_groups_applications_by_mesh() {
    let d = build_dashboard_at(&snapshot(), "2024-05-01T00:00:00+00:00".into());
    assert_eq!(d.cluster_ref, "in-cluster");
    assert_eq!(d.cluster.name, "Hub cluster");
    assert_eq!(d.cluster.platform, "Kubernetes");
    assert_eq!((d.cluster.mesh_instance_count, d.cluster.ambient_mesh_count), (2, 1));
    assert_eq!(d.last_updated, "2024-05-01T00:00:00+00:00");
    assert_eq!(d.mesh_instances.len(), 2);

    let ambient = &d.mesh_instances[0];
    assert!(ambient.ambient);
    assert_eq!(ambient.discovery_label, "mesh-b");
    assert_eq!(ambient.applications.len(), 1);
    let b = &ambient.applications[0];
    assert_eq!((b.namespace.as_str(), b.status), ("bookinfo", ApplicationMigrationStatus::Migrated));
    assert_eq!(b.dataplane_mode, "ambient");
    assert!(b.ambient_dataplane);
    assert_eq!(b.workload_count, 3);
    assert_eq!((ambient.counts.migrated, ambient.counts.total), (1, 1));

    let sidecar = &d.mesh_instances[1];
    let rows: Vec<(&str, &str, ApplicationMigrationStatus)> =
        sidecar.applications.iter().map(|r| (r.application_name.as_str(), r.namespace.as_str(), r.status)).collect();
    assert_eq!(rows, vec![
        ("a-cart", "cart", ApplicationMigrationStatus::Blocker),
        ("shop-app", "shop", ApplicationMigrationStatus::Processing),
    ]);
    assert_eq!(sidecar.applications[0].blocker_count, 1);
    assert_eq!(sidecar.applications[0].assessment_ref.as_deref(), Some("assess-1"));
    assert_eq!(sidecar.applications[1].rollout_phase.as_deref(), Some("Running"));
    assert!(!sidecar.applications[1].ambient_dataplane);
    assert_eq!((sidecar.counts.blocker, sidecar.counts.processing, sidecar.counts.total), (1, 1, 2));

    assert_eq!(
        (d.summary.migrated, d.summary.processing, d.summary.blocker, d.summary.total),
        (1, 1, 1, 3)
    );
    let s = d.migration_savings.unwrap();
    assert_eq!(s.migrated_workloads, 3);
    assert_eq!(s.estimated_sidecar_proxies_removed, 3);
    assert_eq!(s.estimated_memory_mib_saved, 384);
    assert_eq!(s.estimated_cpu_millicores_saved, 300);
}

#[test]
fn cluster_dashboard_is_stamped_now() {
    let d = build_dashboard(&snapshot());
    assert!(d.last_updated.contains('T'));
    assert_eq!(d.summary.total, 3);
}

fn record(ns: &str, revision: Option<&str>, discovery: Option<&str>, mode: &str, risk: RiskLevel, blockers: u32, workloads: u32) -> ApplicationAssessmentRecord {
    ApplicationAssessmentRecord {
        namespace: ns.into(),
        application_name: format!("{ns}-app"),
        workload_components: vec![],
        migration_candidate: mode != "ambient",
        mesh_revision: revision.map(String::from),
        discovery_label: discovery.map(String::from),
        control_plane_namespace: Some("istio-system".into()),
        hostnames: vec![],
        namespace_labels: Labels::new(),
        dataplane_mode: mode.into(),
        ingress_gateway_namespace: None,
        ingress_same_namespace: false,
        workload_count: workloads,
        readiness_pct: 80,
        risk_level: risk,
        blocker_count: blockers,
        warning_count: 0,
        scores: AssessmentScores { readiness: 80, sidecar_dependency: 80, traffic_compatibility: 80, overall: 80 },
        summary: FindingSummary { blockers, warnings: 0, info: 0 },
        findings: vec![],
        suggestions: vec![],
    }
}

fn cluster() -> ClusterDashboard {
    ClusterDashboard {
        name: "east".into(),
        platform: "OpenShift".into(),
        mesh_flavor: "Ossm".into(),
        istio_version: None,
        mesh_instance_count: 0,
        ambient_mesh_count: 0,
    }
}

fn run() -> ClusterAssessmentRun {
    ClusterAssessmentRun {
        cluster_ref: "ambientor-system/east".into(),
        applications: vec![
            record("shop", Some("rev-a"), Some("mesh-a"), "sidecar", RiskLevel::High, 2, 2),
            record("bookinfo", Some("ambient-rev"), Some("mesh-ambient"), "ambient", RiskLevel::Low, 0, 0),
            record("cart", Some("rev-a"), Some("mesh-a"), "sidecar", RiskLevel::Low, 0, 3),
            record("legacy", None, None, "notEnrolled", RiskLevel::Low, 0, 0),
        ],
        cluster_scores: AssessmentScores { readiness: 80, sidecar_dependency: 80, traffic_compatibility: 80, overall: 80 },
        cluster_summary: FindingSummary { blockers: 2, warnings: 0, info: 0 },
        cluster_findings: vec![],
    }
}

#[test]
fn dashboard_rebuilt_from_assessment_run() {
    let d = dashboard_from_run_at(&run(), cluster(), "t1".into());
    assert_eq!(d.cluster_ref, "ambientor-system/east");
    assert_eq!(d.cluster.name, "east");
    assert_eq!(d.cluster.platform, "OpenShift");
    assert_eq!((d.cluster.mesh_instance_count, d.cluster.ambient_mesh_count), (3, 1));
    assert_eq!(d.last_updated, "t1");
    let groups: Vec<(&str, bool, usize)> =
        d.mesh_instances.iter().map(|m| (m.discovery_label.as_str(), m.ambient, m.applications.len())).collect();
    assert_eq!(groups, vec![("mesh-ambient", true, 1), ("mesh-a", false, 2), ("unknown", false, 1)]);
    let a = &d.mesh_instances[0].applications[0];
    assert_eq!((a.namespace.as_str(), a.status), ("bookinfo", ApplicationMigrationStatus::Migrated));
    assert_eq!(a.assessment_ref.as_deref(), Some("assessment/bookinfo"));
    let rows: Vec<(&str, ApplicationMigrationStatus)> =
        d.mesh_instances[1].applications.iter().map(|r| (r.namespace.as_str(), r.status)).collect();
    assert_eq!(rows, vec![("cart", ApplicationMigrationStatus::Scanned), ("shop", ApplicationMigrationStatus::Blocker)]);
    assert_eq!(d.mesh_instances[1].applications[1].blocker_count, 2);
    let legacy = &d.mesh_instances[2].applications[0];
    assert_eq!(legacy.status, ApplicationMigrationStatus::NotScanned);
    assert_eq!(legacy.mesh_revision, "unknown");
    assert_eq!(
        (d.summary.migrated, d.summary.blocker, d.summary.scanned, d.summary.not_scanned, d.summary.total),
        (1, 1, 1, 1, 4)
    );
    let now = dashboard_from_assessment_run(&run(), cluster());
    assert_eq!(now.summary.total, 4);
    assert!(now.last_updated.contains('T'));
}

#[test]
fn cluster_reference_metadata_marks_hub_or_spoke() {
    let mut d = dashboard_from_run_at(&run(), cluster(), "t1".into());
    apply_cluster_ref_metadata("ambientor-system/east", Some(("ambientor-system".into(), "east".into())), &mut d);
    assert_eq!((d.is_hub, d.reachable), (Some(false), Some(true)));
    assert_eq!(d.connection_name.as_deref(), Some("east"));
    apply_cluster_ref_metadata("in-cluster", None, &mut d);
    assert_eq!(d.cluster_ref, "in-cluster");
    assert_eq!((d.is_hub, d.connection_namespace.clone()), (Some(true), None));
}

#[test]
fn rollout_phases_overlay_statuses() {
    assert_eq!(status_from_rollout_phase("RolledBack", true, "ambient"), ApplicationMigrationStatus::Failed);
    assert_eq!(status_from_rollout_phase("Completed", true, "ambient"), ApplicationMigrationStatus::Migrated);
    assert_eq!(status_from_rollout_phase("Completed", false, "ambient"), ApplicationMigrationStatus::Scanned);
    assert_eq!(status_from_rollout_phase("Whatever", false, "sidecar"), ApplicationMigrationStatus::Processing);

    let mut d = dashboard_from_run_at(&run(), cluster(), "t1".into());
    let untouched = dashboard_from_run_at(&run(), cluster(), "t1".into());
    overlay_rollout_status(&mut d, &Labels::new());
    assert_eq!(d.summary, untouched.summary);
    assert_eq!(d.mesh_instances[1].applications[1].status, untouched.mesh_instances[1].applications[1].status);
    assert_eq!(d.mesh_instances[1].applications[1].rollout_phase, None);

    overlay_rollout_status(&mut d, &labels(&[("shop", "Running"), ("cart", "Failed")]));
    let mesh = &d.mesh_instances[1];
    let rows: Vec<(&str, ApplicationMigrationStatus, Option<&str>)> = mesh
        .applications
        .iter()
        .map(|r| (r.namespace.as_str(), r.status, r.rollout_phase.as_deref()))
        .collect();
    assert_eq!(rows, vec![
        ("cart", ApplicationMigrationStatus::Failed, Some("Failed")),
        ("shop", ApplicationMigrationStatus::Processing, Some("Running")),
    ]);
    assert_eq!((mesh.counts.failed, mesh.counts.processing, mesh.counts.total), (1, 1, 2));
    assert_eq!(
        (d.summary.migrated, d.summary.processing, d.summary.failed, d.summary.not_scanned, d.summary.total),
        (1, 1, 1, 1, 4)
    );
}

#[test]
fn fleet_overlay_touches_only_listed_clusters() {
    let d = dashboard_from_run_at(&run(), cluster(), "t1".into());
    let east = FleetClusterDashboard {
        cluster_ref: "ambientor-system/east".into(),
        cluster: cluster(),
        summary: d.summary,
        mesh_instances: d.mesh_instances,
        last_updated: "t1".into(),
    };
    let hub = FleetClusterDashboard {
        cluster_ref: "in-cluster".into(),
        cluster: cluster(),
        summary: StatusCounts { migrated: 0, processing: 0, blocker: 0, failed: 0, scanned: 2, not_scanned: 0, total: 2 },
        mesh_instances: vec![],
        last_updated: "t0".into(),
    };
    let mut fleet = FleetDashboardResponse { summary: StatusCounts::zero(), clusters: vec![east, hub], last_updated: "now".into() };
    let phases = ClusterPhases { entries: vec![("ambientor-system/east".into(), labels(&[("shop", "Completed")]))] };
    overlay_fleet_rollout_status(&mut fleet, &phases);
    let shop = &fleet.clusters[0].mesh_instances[1].applications[1];
    assert_eq!((shop.namespace.as_str(), shop.status), ("shop", ApplicationMigrationStatus::Scanned));
    assert_eq!(fleet.clusters[1].summary.scanned, 2);
    assert_eq!((fleet.summary.scanned, fleet.summary.blocker, fleet.summary.total), (4, 0, 6));
    assert_eq!(fleet.last_updated, "now");
}
