use ambientor::catalog::{ApplicationAssessmentRecord, RiskLevel};
use ambientor::compute::{aggregate_fleet_summary, compute_migration_savings_from_dashboard, increment_count};
use ambientor::dashboard::{
    ApplicationMigrationStatus, ApplicationRow, ClusterDashboard, DashboardResponse, FleetClusterDashboard,
    FleetDashboardResponse, MeshInstanceDashboard, StatusCounts,
};
use ambientor::dashboard_flow::{
    enrich_fleet_display_names, fleet_from_dashboard, hub_local_refusal, merge_fleet_with_connections,
    next_dashboard_action, next_fleet_action, requested_cluster_ref, stamp_live_dashboard, DashboardAction,
    DashboardEvent, DashboardQuery, FleetAction, FleetConnection, FleetDashboardQuery, FleetEvent,
    SpokeDashboardMeta,
};
use ambientor::inventory::{cluster_display_name, cluster_ref_from_setting};
use ambientor::labels::Labels;
use ambientor::model::{AssessmentScores, FindingSummary};
use ambientor::stored::{
    cluster_upsert_flags, effective_dataplane_mode, fleet_from_snapshots, list_page_window, placeholder_dashboard,
    stored_detail, rebuild_dashboard, search_pattern,
    snapshot_dashboard, snapshot_is_stale, stored_list_item, stored_record, ApplicationListQuery,
    StoredApplicationRow, StoredAssessmentDetails, StoredClusterMeta, StoredSnapshot,
};

fn counts(migrated: usize, scanned: usize) -> StatusCounts {
    StatusCounts { migrated, processing: 0, blocker: 0, failed: 0, scanned, not_scanned: 0, total: migrated + scanned }
}

fn cluster(name: &str) -> ClusterDashboard {
    ClusterDashboard {
        name: name.into(),
        platform: "Kubernetes".into(),
        mesh_flavor: String::new(),
        istio_version: None,
        mesh_instance_count: 0,
        ambient_mesh_count: 0,
    }
}

fn entry(cluster_ref: &str, c: StatusCounts) -> FleetClusterDashboard {
    FleetClusterDashboard {
        cluster_ref: cluster_ref.into(),
        cluster: cluster(cluster_ref),
        summary: c,
        mesh_instances: vec![],
        last_updated: "t".into(),
    }
}

fn row(ns: &str, status: ApplicationMigrationStatus, workloads: u32) -> ApplicationRow {
    ApplicationRow {
        application_name: ns.into(),
        namespace: ns.into(),
        status,
        mesh_revision: "r".into(),
        discovery_label: "d".into(),
        dataplane_mode: "sidecar".into(),
        ambient_dataplane: false,
        blocker_count: 0,
        workload_count: workloads,
        rollout_phase: None,
        assessment_ref: None,
    }
}

fn mesh(ambient: bool, rows: Vec<ApplicationRow>) -> MeshInstanceDashboard {
    MeshInstanceDashboard {
        revision: "r".into(),
        discovery_label: "d".into(),
        control_plane_namespace: "istio-system".into(),
        version: None,
        ambient,
        counts: StatusCounts::zero(),
        applications: rows,
    }
}

#[test]
fn cluster_ref_falls_back_to_hub() {
    assert_eq!(requested_cluster_ref(Some("c/x".into()), "in-cluster".into()), "c/x");
    assert_eq!(requested_cluster_ref(Some(String::new()), "in-cluster".into()), "in-cluster");
    assert_eq!(requested_cluster_ref(None, "hub".into()), "hub");
}

#[test]
fn dashboard_only_without_store_is_unavailable() {
    let q = DashboardQuery { cluster_ref: None, fresh: false, db_only: true, rebuild_assess: false };
    match next_dashboard_action(&q, false, DashboardEvent::Started) {
        DashboardAction::Fail(e) => {
            assert_eq!(e.status, 503);
            assert_eq!(e.message, "DATABASE_URL not configured");
        },
        other => panic!("unexpected {:?}", other),
    }
}

#[test]
fn dashboard_steps() {
    let q = DashboardQuery { cluster_ref: None, fresh: false, db_only: false, rebuild_assess: false };
    assert!(matches!(
        next_dashboard_action(&q, true, DashboardEvent::Started),
        DashboardAction::LoadSnapshot { overlay_rollouts: true }
    ));
    assert!(matches!(next_dashboard_action(&q, false, DashboardEvent::Started), DashboardAction::ComputeLive));
    assert!(matches!(
        next_dashboard_action(&q, true, DashboardEvent::SnapshotLoaded { found: true }),
        DashboardAction::CheckStaleness
    ));
    assert!(matches!(
        next_dashboard_action(&q, true, DashboardEvent::StalenessChecked { stale: Some(false) }),
        DashboardAction::ReturnSnapshot { refresh_in_background: false }
    ));
    assert!(matches!(
        next_dashboard_action(&q, true, DashboardEvent::StalenessChecked { stale: None }),
        DashboardAction::RebuildFromAssessment { overlay_rollouts: true }
    ));
    assert!(matches!(
        next_dashboard_action(&q, true, DashboardEvent::Rebuilt { produced: true, synced: false }),
        DashboardAction::ComputeLive
    ));
    let fresh = DashboardQuery { cluster_ref: None, fresh: true, db_only: false, rebuild_assess: false };
    assert!(matches!(
        next_dashboard_action(&fresh, true, DashboardEvent::SnapshotLoaded { found: true }),
        DashboardAction::ReturnSnapshot { refresh_in_background: true }
    ));
    let db = DashboardQuery { cluster_ref: None, fresh: false, db_only: true, rebuild_assess: true };
    assert!(matches!(
        next_dashboard_action(&db, true, DashboardEvent::Started),
        DashboardAction::RebuildFromAssessment { overlay_rollouts: false }
    ));
    assert!(matches!(
        next_dashboard_action(&db, true, DashboardEvent::Rebuilt { produced: false, synced: false }),
        DashboardAction::LoadSnapshot { overlay_rollouts: false }
    ));
    match next_dashboard_action(&db, true, DashboardEvent::SnapshotLoaded { found: false }) {
        DashboardAction::Fail(e) => {
            assert_eq!(e.status, 404);
            assert_eq!(e.message, "no dashboard snapshot in database for this cluster; run assessment");
        },
        other => panic!("unexpected {:?}", other),
    }
}

#[test]
fn fleet_steps() {
    let q = FleetDashboardQuery { fresh: true, db_only: false, rebuild_assess: false };
    assert!(matches!(next_fleet_action(&q, false, FleetEvent::Started), FleetAction::Fail(e) if e.status == 503));
    assert!(matches!(next_fleet_action(&q, true, FleetEvent::Started), FleetAction::LoadFleet { connect_hub: true }));
    assert!(matches!(
        next_fleet_action(&q, true, FleetEvent::FleetLoaded { found: false, error: None }),
        FleetAction::ComputeHubLive
    ));
    assert!(matches!(
        next_fleet_action(&q, true, FleetEvent::HubComputed),
        FleetAction::Decorate { refresh_in_background: true }
    ));
    let db = FleetDashboardQuery { fresh: false, db_only: true, rebuild_assess: true };
    assert!(matches!(next_fleet_action(&db, true, FleetEvent::Started), FleetAction::RebuildAll));
    assert!(matches!(
        next_fleet_action(&db, true, FleetEvent::RebuiltAll { error: Some("boom".into()) }),
        FleetAction::Fail(e) if e.status == 500 && e.message == "boom"
    ));
    assert!(matches!(
        next_fleet_action(&db, true, FleetEvent::FleetLoaded { found: true, error: None }),
        FleetAction::ReturnStored
    ));
    assert!(matches!(
        next_fleet_action(&db, true, FleetEvent::FleetLoaded { found: false, error: None }),
        FleetAction::Fail(e) if e.status == 404
            && e.message == "no fleet dashboard snapshots in database; run assessment on clusters"
    ));
}

#[test]
fn fleet_merge_and_names() {
    let fleet = FleetDashboardResponse {
        summary: counts(1, 0),
        clusters: vec![entry("in-cluster", counts(1, 0))],
        last_updated: "2024-01-01T00:00:00+00:00".into(),
    };
    let conns = vec![
        FleetConnection { name: Some("hub".into()), hub: true, spoke_cluster_ref: "x/hub".into(), display_name: "Hub".into() },
        FleetConnection { name: Some("east".into()), hub: false, spoke_cluster_ref: "ambientor-system/east".into(), display_name: "East".into() },
        FleetConnection { name: None, hub: false, spoke_cluster_ref: "ambientor-system/anon".into(), display_name: "Anon".into() },
        FleetConnection { name: Some("east2".into()), hub: false, spoke_cluster_ref: "ambientor-system/east".into(), display_name: "Dup".into() },
    ];
    let merged = merge_fleet_with_connections(fleet, &conns, "in-cluster");
    assert_eq!(merged.clusters.len(), 2);
    let added = &merged.clusters[1];
    assert_eq!(added.cluster_ref, "ambientor-system/east");
    assert_eq!(added.cluster.name, "East");
    assert_eq!(added.summary, StatusCounts::zero());
    assert_eq!(added.last_updated, "2024-01-01T00:00:00+00:00");
    let names = vec![("in-cluster".to_string(), "Hub cluster".to_string())];
    let named = enrich_fleet_display_names(merged, &names);
    assert_eq!(named.clusters[0].cluster.name, "Hub cluster");
    assert_eq!(named.clusters[1].cluster.name, "East");
}

#[test]
fn fleet_of_one_dashboard() {
    let d = DashboardResponse {
        cluster_ref: "in-cluster".into(),
        cluster: cluster("hub"),
        summary: counts(2, 1),
        mesh_instances: vec![],
        migration_savings: None,
        last_updated: "now".into(),
        connection_namespace: None,
        connection_name: None,
        reachable: Some(true),
        is_hub: Some(true),
    };
    let f = fleet_from_dashboard(d);
    assert_eq!(f.clusters.len(), 1);
    assert_eq!(f.summary, counts(2, 1));
    assert_eq!(f.clusters[0].cluster_ref, "in-cluster");
    assert_eq!(f.last_updated, "now");
}

#[test]
fn staleness_and_paging() {
    assert!(snapshot_is_stale(Some(10), Some(5)));
    assert!(!snapshot_is_stale(Some(5), Some(5)));
    assert!(snapshot_is_stale(Some(1), None));
    assert!(!snapshot_is_stale(None, Some(1)));
    assert!(!snapshot_is_stale(None, None));
    assert_eq!(list_page_window(0, 0), (1, 1, 0));
    assert_eq!(list_page_window(3, 500), (3, 200, 400));
    assert_eq!(list_page_window(2, 50), (2, 50, 50));
    assert_eq!(search_pattern("rev"), "%rev%");
    let q = ApplicationListQuery::default();
    assert!(q.migration_candidates_only);
    assert_eq!((q.page, q.page_size), (1, 50));
}

fn stored_row(name: &str, mode: &str, labels: Labels, candidate: bool) -> StoredApplicationRow {
    StoredApplicationRow {
        namespace: "bookinfo".into(),
        application_name: name.into(),
        workload_components: vec!["reviews".into()],
        migration_candidate: candidate,
        cluster_ref: "in-cluster".into(),
        mesh_revision: None,
        discovery_label: None,
        control_plane_namespace: None,
        hostnames: vec![],
        namespace_labels: labels,
        dataplane_mode: mode.into(),
        ingress_gateway_namespace: None,
        ingress_same_namespace: false,
        workload_count: 3,
        readiness_pct: 85,
        risk_level: "high".into(),
        blocker_count: 0,
        warning_count: 2,
    }
}

fn details() -> StoredAssessmentDetails {
    StoredAssessmentDetails {
        scores: AssessmentScores { readiness: 85, sidecar_dependency: 100, traffic_compatibility: 70, overall: 85 },
        summary: FindingSummary { blockers: 0, warnings: 2, info: 0 },
        findings: vec![],
        suggestions: vec![],
    }
}

#[test]
fn stored_rows_read_back() {
    let mut ambient = Labels::new();
    ambient.insert("istio.io/dataplane-mode".into(), "ambient".into());
    assert_eq!(effective_dataplane_mode("sidecar", &ambient, None, None), "sidecar");
    assert_eq!(effective_dataplane_mode("", &ambient, None, None), "ambient");
    assert_eq!(effective_dataplane_mode("", &Labels::new(), None, None), "notEnrolled");
    assert_eq!(effective_dataplane_mode("legacy", &Labels::new(), None, None), "legacy");

    let item = stored_list_item(stored_row("", "", Labels::new(), true));
    assert_eq!(item.application_name, "bookinfo");
    assert_eq!(item.dataplane_mode, "notEnrolled");
    assert_eq!(item.risk_level, RiskLevel::High);
    assert_eq!(item.workload_count, 3);

    let mut labels = Labels::new();
    labels.insert("istio.io/dataplane-mode".into(), "ambient".into());
    let r: ApplicationAssessmentRecord = stored_record(stored_row("reviews", "", labels, true), details());
    assert_eq!(r.dataplane_mode, "ambient");
    assert!(!r.migration_candidate);
    assert_eq!(r.application_name, "reviews");
    let r = stored_record(stored_row("reviews", "", Labels::new(), true), details());
    assert_eq!(r.dataplane_mode, "");
    assert!(r.migration_candidate);
}

#[test]
fn snapshots_and_rebuild() {
    let s = StoredSnapshot {
        cluster_ref: "in-cluster".into(),
        display_name: "Hub".into(),
        platform: None,
        mesh_flavor: None,
        istio_version: Some("1.28".into()),
        summary: counts(1, 0),
        mesh_instances: vec![mesh(true, vec![row("a", ApplicationMigrationStatus::Migrated, 0)]), mesh(false, vec![])],
        captured_at: "2024-05-01T10:00:00+00:00".into(),
    };
    let d = snapshot_dashboard(s);
    assert_eq!(d.cluster.platform, "Kubernetes");
    assert_eq!(d.cluster.mesh_instance_count, 2);
    assert_eq!(d.cluster.ambient_mesh_count, 1);
    let savings = d.migration_savings.unwrap();
    assert_eq!(savings.migrated_workloads, 1);
    assert_eq!(savings.estimated_memory_mib_saved, 128);
    assert_eq!(d.last_updated, "2024-05-01T10:00:00+00:00");

    assert!(fleet_from_snapshots(vec![]).is_none());
    let snap = |r: &str, t: &str| StoredSnapshot {
        cluster_ref: r.into(),
        display_name: r.into(),
        platform: Some("OpenShift".into()),
        mesh_flavor: Some("Istio".into()),
        istio_version: None,
        summary: counts(1, 2),
        mesh_instances: vec![],
        captured_at: t.into(),
    };
    let fleet = fleet_from_snapshots(vec![
        snap("a", "2024-05-01T10:00:00+00:00"),
        snap("b", "2024-05-02T10:00:00+02:00"),
        snap("c", "not a time"),
    ])
    .unwrap();
    assert_eq!(fleet.clusters.len(), 3);
    assert_eq!(fleet.summary.migrated, 3);
    assert_eq!(fleet.summary.total, 9);
    assert_eq!(fleet.last_updated, "2024-05-02T08:00:00+00:00");

    let meta = || StoredClusterMeta { display_name: "Hub".into(), platform: None, mesh_flavor: None, istio_version: None };
    assert!(rebuild_dashboard("in-cluster", meta(), vec![]).is_none());
}

#[test]
fn counts_and_savings() {
    let mut c = StatusCounts::zero();
    increment_count(&mut c, ApplicationMigrationStatus::Blocker);
    increment_count(&mut c, ApplicationMigrationStatus::Blocker);
    assert_eq!(c.blocker, 2);
    assert_eq!(c.total, 0);
    let s = aggregate_fleet_summary(&[counts(1, 2), counts(3, 0)]);
    assert_eq!((s.migrated, s.scanned, s.total), (4, 2, 6));
    let meshes = vec![mesh(true, vec![
        row("a", ApplicationMigrationStatus::Migrated, 4),
        row("b", ApplicationMigrationStatus::Scanned, 9),
    ])];
    let savings = compute_migration_savings_from_dashboard(&meshes);
    assert_eq!(savings.migrated_workloads, 4);
    assert_eq!(savings.estimated_sidecar_proxies_removed, 4);
    assert_eq!(savings.estimated_memory_mib_saved, 512);
    assert_eq!(savings.estimated_cpu_millicores_saved, 400);
}

#[test]
fn status_db_texts_round_trip() {
    for st in [
        ApplicationMigrationStatus::Migrated,
        ApplicationMigrationStatus::Processing,
        ApplicationMigrationStatus::Blocker,
        ApplicationMigrationStatus::Failed,
        ApplicationMigrationStatus::Scanned,
        ApplicationMigrationStatus::NotScanned,
    ] {
        assert_eq!(ApplicationMigrationStatus::from_db_str(st.as_db_str()), Some(st));
    }
    assert_eq!(ApplicationMigrationStatus::from_db_str("unknown"), None);
    for r in [RiskLevel::Low, RiskLevel::Medium, RiskLevel::High, RiskLevel::Critical] {
        assert_eq!(RiskLevel::from_db_str(r.as_db_str()), r);
    }
    assert_eq!(RiskLevel::from_db_str("bogus"), RiskLevel::Low);
}

fn live_dashboard() -> DashboardResponse {
    DashboardResponse {
        cluster_ref: String::new(),
        cluster: cluster("computed"),
        summary: counts(1, 2),
        mesh_instances: vec![],
        migration_savings: None,
        last_updated: "t0".into(),
        connection_namespace: None,
        connection_name: None,
        reachable: None,
        is_hub: None,
    }
}

#[test]
fn live_dashboards_are_stamped() {
    let mut d = live_dashboard();
    stamp_live_dashboard(&mut d, "in-cluster", "Hub".into(), None);
    assert_eq!(d.cluster_ref, "in-cluster");
    assert_eq!(d.cluster.name, "Hub");
    assert_eq!((d.reachable, d.is_hub), (Some(true), Some(true)));
    assert_eq!(d.connection_name, None);
    assert_eq!(d.summary, counts(1, 2));
    let mut d = live_dashboard();
    let meta = SpokeDashboardMeta { display_name: "East".into(), connection_namespace: "ambientor-system".into(), connection_name: "east".into() };
    stamp_live_dashboard(&mut d, "ambientor-system/east", "ignored".into(), Some(meta));
    assert_eq!(d.cluster.name, "East");
    assert_eq!(d.is_hub, Some(false));
    assert_eq!(d.connection_namespace.as_deref(), Some("ambientor-system"));
    assert_eq!(d.connection_name.as_deref(), Some("east"));
    assert_eq!(d.last_updated, "t0");
}

#[test]
fn hub_local_reference_is_refused_with_hint() {
    assert_eq!(hub_local_refusal("x/hub"), "cluster_ref x/hub is hub-local; omit clusterRef for hub dashboard");
}

#[test]
fn cluster_names_and_references_fall_back() {
    assert_eq!(cluster_display_name(Some("prod".into()), Some((Some("Shown".into()), None)), true), "prod");
    assert_eq!(cluster_display_name(Some(String::new()), Some((Some("Shown".into()), Some("c1".into()))), true), "Shown");
    assert_eq!(cluster_display_name(None, Some((None, Some("c1".into()))), false), "c1");
    assert_eq!(cluster_display_name(None, Some((None, None)), true), "Connected cluster");
    assert_eq!(cluster_display_name(None, None, false), "Hub cluster");
    assert_eq!(cluster_ref_from_setting(None), "in-cluster");
    assert_eq!(cluster_ref_from_setting(Some("ambientor-system/east".into())), "ambientor-system/east");
}

#[test]
fn stored_details_and_cluster_rows() {
    let d = stored_detail(stored_row("reviews", "sidecar", Labels::new(), true), details());
    assert_eq!(d.list.application_name, "reviews");
    assert_eq!(d.list.dataplane_mode, "sidecar");
    assert_eq!(d.scores.traffic_compatibility, 70);
    assert_eq!(d.summary.warnings, 2);

    let p = placeholder_dashboard("ambientor-system/east");
    assert_eq!(p.cluster_ref, "ambientor-system/east");
    assert_eq!(p.cluster.name, "ambientor-system/east");
    assert_eq!(p.cluster.platform, "Kubernetes");
    assert_eq!(p.summary, StatusCounts::zero());
    assert!(p.mesh_instances.is_empty());
    assert_eq!(cluster_upsert_flags(&p), (false, true));
    let hub = placeholder_dashboard("in-cluster");
    assert_eq!(cluster_upsert_flags(&hub), (true, true));
    let mut recorded = placeholder_dashboard("x/y");
    recorded.is_hub = Some(true);
    recorded.reachable = Some(false);
    assert_eq!(cluster_upsert_flags(&recorded), (true, false));
}
