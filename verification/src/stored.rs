//! Stored assessments and dashboard snapshots: the catalog list query, rows read back
//! into records, list items and details, snapshot staleness, and dashboards and fleets
//! rebuilt from stored rows.

use vstd::prelude::*;

use crate::catalog::{ApplicationAssessmentRecord, ApplicationDetail, ApplicationListItem, AssessmentSuggestion, ClusterAssessmentRun, RiskLevel};
use crate::clock::{format_rfc3339_utc, parse_rfc3339, rfc3339_instant, rfc3339_utc_text, utc_now_rfc3339};
use crate::compute::{aggregate_fleet_summary, migrated_workloads, saturating_times, sum_six, summary_of};
use crate::connections::{connection_parts, connection_parts_from_response};
use crate::dashboard::{ClusterDashboard, DashboardResponse, FleetClusterDashboard, FleetDashboardResponse, MeshInstanceDashboard, MigrationSavingsSummary, StatusCounts};
use crate::dataplane::{derive_dataplane_mode_from_stored, mode_text, spec_dataplane_mode_from_stored, DataplaneMode};
use crate::from_run::{ambient_meshes, dashboard_from_assessment_run, run_dashboard};
use crate::labels::Labels;
use crate::model::{AssessmentScores, Finding, FindingSummary};
use crate::text::{owned, str_eq};

verus! {

/// Query of the application catalog.
#[derive(Debug)]
pub struct ApplicationListQuery {
    pub cluster_ref: String,
    pub search: Option<String>,
    pub risk_level: Option<String>,
    pub mesh_revision: Option<String>,
    /// When true (default), only namespaces that still need migration.
    pub migration_candidates_only: bool,
    pub page: u32,
    pub page_size: u32,
}

impl Default for ApplicationListQuery {
    fn default() -> (r: Self)
        ensures
            r.cluster_ref@ == Seq::<char>::empty(),
            r.search is None,
            r.risk_level is None,
            r.mesh_revision is None,
            r.migration_candidates_only,
            r.page == 1,
            r.page_size == 50,
    {
        ApplicationListQuery {
            cluster_ref: String::new(),
            search: None,
            risk_level: None,
            mesh_revision: None,
            migration_candidates_only: true,
            page: 1,
            page_size: 50,
        }
    }
}

/// Page, page size and row offset of a list request: the page is at least one and the
/// size between one and two hundred.
pub open spec fn page_window_of(page: u32, page_size: u32) -> (u32, u32, int) {
    let p: u32 = if page < 1 { 1 } else { page };
    let s: u32 = if page_size < 1 {
        1
    } else if page_size > 200 {
        200
    } else {
        page_size
    };
    (p, s, (p - 1) * s)
}

/// Page, page size and row offset of a list request.
pub fn list_page_window(page: u32, page_size: u32) -> (r: (u32, u32, i64))
    ensures
        r.0 == page_window_of(page, page_size).0,
        r.1 == page_window_of(page, page_size).1,
        r.2 == page_window_of(page, page_size).2,
{
    let p: u32 = if page < 1 { 1 } else { page };
    let s: u32 = if page_size < 1 {
        1
    } else if page_size > 200 {
        200
    } else {
        page_size
    };
    let pm: u64 = (p - 1) as u64;
    assert(pm * (s as u64) <= 0xffff_ffffu64 * 200u64) by (nonlinear_arith)
        requires
            pm <= 0xffff_ffffu64,
            s <= 200,
    ;
    let offset: i64 = (pm * (s as u64)) as i64;
    (p, s, offset)
}

/// Pattern that matches a search text anywhere in a column.
pub fn search_pattern(s: &str) -> (r: String)
    ensures
        r@ == seq!['%'] + s@ + seq!['%'],
{
    let mut out = owned("%");
    out.append(s);
    out.append("%");
    proof {
        reveal_strlit("%");
    }
    out
}

/// Dataplane mode shown for a stored row: the stored `ambient` or `sidecar` as is, else the
/// mode the stored labels give when they show enrollment, else the stored text, or the
/// derived mode when nothing was stored.
pub open spec fn effective_mode_text(stored: Seq<char>, labels: Map<Seq<char>, Seq<char>>) -> Seq<char> {
    if stored == "ambient"@ || stored == "sidecar"@ {
        stored
    } else if spec_dataplane_mode_from_stored(labels) != DataplaneMode::NotEnrolled {
        mode_text(spec_dataplane_mode_from_stored(labels))
    } else if stored.len() == 0 {
        mode_text(spec_dataplane_mode_from_stored(labels))
    } else {
        stored
    }
}

/// Dataplane mode shown for a stored catalog row.
pub fn effective_dataplane_mode(
    stored: &str,
    labels: &Labels,
    mesh_revision: Option<&str>,
    discovery_label: Option<&str>,
) -> (r: String)
    ensures
        r@ == effective_mode_text(stored@, labels@),
{
    if str_eq(stored, "ambient") || str_eq(stored, "sidecar") {
        return owned(stored);
    }
    let derived = derive_dataplane_mode_from_stored(labels, mesh_revision, discovery_label);
    if derived != DataplaneMode::NotEnrolled {
        return owned(derived.as_str());
    }
    if stored.is_empty() {
        owned(derived.as_str())
    } else {
        owned(stored)
    }
}

/// Columns of a stored application assessment, decoded.
#[derive(Debug)]
pub struct StoredApplicationRow {
    pub namespace: String,
    pub application_name: String,
    pub workload_components: Vec<String>,
    pub migration_candidate: bool,
    pub cluster_ref: String,
    pub mesh_revision: Option<String>,
    pub discovery_label: Option<String>,
    pub control_plane_namespace: Option<String>,
    pub hostnames: Vec<String>,
    pub namespace_labels: Labels,
    pub dataplane_mode: String,
    pub ingress_gateway_namespace: Option<String>,
    pub ingress_same_namespace: bool,
    pub workload_count: i32,
    pub readiness_pct: i16,
    pub risk_level: String,
    pub blocker_count: i32,
    pub warning_count: i32,
}

/// Scores, findings and suggestions of a stored application assessment, decoded.
#[derive(Debug)]
pub struct StoredAssessmentDetails {
    pub scores: AssessmentScores,
    pub summary: FindingSummary,
    pub findings: Vec<Finding>,
    pub suggestions: Vec<AssessmentSuggestion>,
}

/// Risk level of a stored text: `critical`, `high` and `medium` as named, anything else low.
pub open spec fn risk_of_text(s: Seq<char>) -> RiskLevel {
    if s == "critical"@ {
        RiskLevel::Critical
    } else if s == "high"@ {
        RiskLevel::High
    } else if s == "medium"@ {
        RiskLevel::Medium
    } else {
        RiskLevel::Low
    }
}

/// A risk level read back from the text written for it is that level.
pub proof fn law_risk_text_round_trip(r: RiskLevel)
    ensures
        risk_of_text(crate::catalog::risk_db_text(r)) == r,
{
    reveal_strlit("low");
    reveal_strlit("medium");
    reveal_strlit("high");
    reveal_strlit("critical");
    assert("low"@.len() == 3 && "medium"@.len() == 6 && "high"@.len() == 4 && "critical"@.len() == 8);
}

/// Application name of a stored row: the namespace when none was stored.
pub open spec fn stored_app_name(row: StoredApplicationRow) -> Seq<char> {
    if row.application_name@.len() == 0 {
        row.namespace@
    } else {
        row.application_name@
    }
}

/// Whether a list item shows a stored row.
pub open spec fn list_item_of(item: ApplicationListItem, row: StoredApplicationRow) -> bool {
    &&& item.namespace == row.namespace
    &&& item.application_name@ == stored_app_name(row)
    &&& item.workload_components == row.workload_components
    &&& item.migration_candidate == row.migration_candidate
    &&& item.cluster_ref == row.cluster_ref
    &&& item.mesh_revision == row.mesh_revision
    &&& item.discovery_label == row.discovery_label
    &&& item.control_plane_namespace == row.control_plane_namespace
    &&& item.hostnames == row.hostnames
    &&& item.namespace_labels == row.namespace_labels
    &&& item.dataplane_mode@ == effective_mode_text(row.dataplane_mode@, row.namespace_labels@)
    &&& item.ingress_gateway_namespace == row.ingress_gateway_namespace
    &&& item.ingress_same_namespace == row.ingress_same_namespace
    &&& item.workload_count == row.workload_count as u32
    &&& item.readiness_pct == row.readiness_pct as u8
    &&& item.risk_level == risk_of_text(row.risk_level@)
    &&& item.blocker_count == row.blocker_count as u32
    &&& item.warning_count == row.warning_count as u32
}

fn opt_as_str(o: &Option<String>) -> (r: Option<&str>)
    ensures
        match r {
            Some(s) => o is Some && s@ == o->0@,
            None => o is None,
        },
{
    match o {
        Some(s) => Some(s.as_str()),
        None => None,
    }
}

/// List item of a stored catalog row.
pub fn stored_list_item(row: StoredApplicationRow) -> (r: ApplicationListItem)
    ensures
        list_item_of(r, row),
{
    let ghost row0 = row;
    let dataplane_mode = effective_dataplane_mode(
        row.dataplane_mode.as_str(),
        &row.namespace_labels,
        opt_as_str(&row.mesh_revision),
        opt_as_str(&row.discovery_label),
    );
    let application_name = if row.application_name.as_str().is_empty() {
        row.namespace.clone()
    } else {
        row.application_name
    };
    let risk_level = RiskLevel::from_db_str(row.risk_level.as_str());
    ApplicationListItem {
        namespace: row.namespace,
        application_name,
        workload_components: row.workload_components,
        migration_candidate: row.migration_candidate,
        cluster_ref: row.cluster_ref,
        mesh_revision: row.mesh_revision,
        discovery_label: row.discovery_label,
        control_plane_namespace: row.control_plane_namespace,
        hostnames: row.hostnames,
        namespace_labels: row.namespace_labels,
        dataplane_mode,
        ingress_gateway_namespace: row.ingress_gateway_namespace,
        ingress_same_namespace: row.ingress_same_namespace,
        workload_count: row.workload_count as u32,
        readiness_pct: row.readiness_pct as u8,
        risk_level,
        blocker_count: row.blocker_count as u32,
        warning_count: row.warning_count as u32,
    }
}

/// Detail of a stored catalog row, with its scores, findings and suggestions.
pub fn stored_detail(row: StoredApplicationRow, details: StoredAssessmentDetails) -> (r: ApplicationDetail)
    ensures
        list_item_of(r.list, row),
        r.scores == details.scores,
        r.summary == details.summary,
        r.findings == details.findings,
        r.suggestions == details.suggestions,
{
    let list = stored_list_item(row);
    ApplicationDetail {
        list,
        scores: details.scores,
        summary: details.summary,
        findings: details.findings,
        suggestions: details.suggestions,
    }
}

/// Dataplane text of a record read back: the stored `ambient` or `sidecar` as is, else the
/// mode the stored labels give when they show enrollment, else the stored text unchanged.
pub open spec fn record_mode_text(stored: Seq<char>, labels: Map<Seq<char>, Seq<char>>) -> Seq<char> {
    if stored == "ambient"@ || stored == "sidecar"@ {
        stored
    } else if spec_dataplane_mode_from_stored(labels) != DataplaneMode::NotEnrolled {
        mode_text(spec_dataplane_mode_from_stored(labels))
    } else {
        stored
    }
}

/// Dataplane mode that a record's text names, the stored labels deciding for other texts.
pub open spec fn record_mode(text: Seq<char>, labels: Map<Seq<char>, Seq<char>>) -> DataplaneMode {
    if text == "ambient"@ {
        DataplaneMode::Ambient
    } else if text == "sidecar"@ {
        DataplaneMode::Sidecar
    } else {
        spec_dataplane_mode_from_stored(labels)
    }
}

/// Whether a record is the one a stored row reads back as: a namespace already on the
/// ambient dataplane is no migration candidate.
pub open spec fn record_of_row(r: ApplicationAssessmentRecord, row: StoredApplicationRow, details: StoredAssessmentDetails) -> bool {
    &&& r.namespace == row.namespace
    &&& r.application_name@ == stored_app_name(row)
    &&& r.workload_components == row.workload_components
    &&& r.migration_candidate == (row.migration_candidate && record_mode(
        record_mode_text(row.dataplane_mode@, row.namespace_labels@),
        row.namespace_labels@,
    ) != DataplaneMode::Ambient)
    &&& r.mesh_revision == row.mesh_revision
    &&& r.discovery_label == row.discovery_label
    &&& r.control_plane_namespace == row.control_plane_namespace
    &&& r.hostnames == row.hostnames
    &&& r.namespace_labels == row.namespace_labels
    &&& r.dataplane_mode@ == record_mode_text(row.dataplane_mode@, row.namespace_labels@)
    &&& r.ingress_gateway_namespace == row.ingress_gateway_namespace
    &&& r.ingress_same_namespace == row.ingress_same_namespace
    &&& r.workload_count == row.workload_count as u32
    &&& r.readiness_pct == row.readiness_pct as u8
    &&& r.risk_level == risk_of_text(row.risk_level@)
    &&& r.blocker_count == row.blocker_count as u32
    &&& r.warning_count == row.warning_count as u32
    &&& r.scores == details.scores
    &&& r.summary == details.summary
    &&& r.findings == details.findings
    &&& r.suggestions == details.suggestions
}

/// A record read back on the ambient dataplane is never a migration candidate.
pub proof fn law_stored_ambient_never_candidate(r: ApplicationAssessmentRecord, row: StoredApplicationRow, details: StoredAssessmentDetails)
    requires
        record_of_row(r, row, details),
        r.dataplane_mode@ == "ambient"@,
    ensures
        !r.migration_candidate,
{
}

/// Assessment record read back from a stored row.
pub fn stored_record(row: StoredApplicationRow, details: StoredAssessmentDetails) -> (r: ApplicationAssessmentRecord)
    ensures
        record_of_row(r, row, details),
{
    let derived = derive_dataplane_mode_from_stored(
        &row.namespace_labels,
        opt_as_str(&row.mesh_revision),
        opt_as_str(&row.discovery_label),
    );
    let dataplane_mode = if str_eq(row.dataplane_mode.as_str(), "ambient") || str_eq(row.dataplane_mode.as_str(), "sidecar") {
        row.dataplane_mode
    } else if derived != DataplaneMode::NotEnrolled {
        owned(derived.as_str())
    } else {
        row.dataplane_mode
    };
    let dp_mode = if str_eq(dataplane_mode.as_str(), "ambient") {
        DataplaneMode::Ambient
    } else if str_eq(dataplane_mode.as_str(), "sidecar") {
        DataplaneMode::Sidecar
    } else {
        derived
    };
    let application_name = if row.application_name.as_str().is_empty() {
        row.namespace.clone()
    } else {
        row.application_name
    };
    let migration_candidate = row.migration_candidate && dp_mode != DataplaneMode::Ambient;
    let risk_level = RiskLevel::from_db_str(row.risk_level.as_str());
    ApplicationAssessmentRecord {
        namespace: row.namespace,
        application_name,
        workload_components: row.workload_components,
        migration_candidate,
        mesh_revision: row.mesh_revision,
        discovery_label: row.discovery_label,
        control_plane_namespace: row.control_plane_namespace,
        hostnames: row.hostnames,
        namespace_labels: row.namespace_labels,
        dataplane_mode,
        ingress_gateway_namespace: row.ingress_gateway_namespace,
        ingress_same_namespace: row.ingress_same_namespace,
        workload_count: row.workload_count as u32,
        readiness_pct: row.readiness_pct as u8,
        risk_level,
        blocker_count: row.blocker_count as u32,
        warning_count: row.warning_count as u32,
        scores: details.scores,
        summary: details.summary,
        findings: details.findings,
        suggestions: details.suggestions,
    }
}

/// Whether the stored dashboard snapshot is stale: an assessment finished after the latest
/// snapshot, or an assessment exists and no snapshot. Instants are microseconds since the
/// epoch.
pub fn snapshot_is_stale(latest_assessment: Option<i64>, latest_snapshot: Option<i64>) -> (r: bool)
    ensures
        r == match (latest_assessment, latest_snapshot) {
            (Some(a), Some(d)) => a > d,
            (Some(_), None) => true,
            _ => false,
        },
{
    match (latest_assessment, latest_snapshot) {
        (Some(a), Some(d)) => a > d,
        (Some(_), None) => true,
        _ => false,
    }
}

/// A stored dashboard snapshot of a cluster, decoded.
#[derive(Debug)]
pub struct StoredSnapshot {
    pub cluster_ref: String,
    pub display_name: String,
    pub platform: Option<String>,
    pub mesh_flavor: Option<String>,
    pub istio_version: Option<String>,
    pub summary: StatusCounts,
    pub mesh_instances: Vec<MeshInstanceDashboard>,
    /// When the snapshot was taken, RFC 3339.
    pub captured_at: String,
}

/// Platform of a stored cluster: Kubernetes when none was stored.
pub open spec fn platform_or_default(p: Option<String>) -> Seq<char> {
    match p {
        Some(s) => s@,
        None => "Kubernetes"@,
    }
}

/// Mesh flavor of a stored cluster: empty when none was stored.
pub open spec fn flavor_or_default(f: Option<String>) -> Seq<char> {
    match f {
        Some(s) => s@,
        None => Seq::empty(),
    }
}

/// Savings estimate of a list of meshes, when the migrated workloads fit in 32 bits.
pub open spec fn savings_of(meshes: Seq<MeshInstanceDashboard>) -> Option<MigrationSavingsSummary> {
    if migrated_workloads(meshes) <= u32::MAX {
        Some(
            MigrationSavingsSummary {
                migrated_workloads: migrated_workloads(meshes) as u32,
                estimated_sidecar_proxies_removed: migrated_workloads(meshes) as u32,
                estimated_memory_mib_saved: saturating_times(migrated_workloads(meshes), 128) as u32,
                estimated_cpu_millicores_saved: saturating_times(migrated_workloads(meshes), 100) as u32,
            },
        )
    } else {
        None
    }
}

/// Whether a dashboard is the one a stored snapshot reads back as.
pub open spec fn snapshot_dashboard_of(d: DashboardResponse, s: StoredSnapshot) -> bool {
    &&& d.cluster_ref == s.cluster_ref
    &&& d.cluster.name == s.display_name
    &&& d.cluster.platform@ == platform_or_default(s.platform)
    &&& d.cluster.mesh_flavor@ == flavor_or_default(s.mesh_flavor)
    &&& d.cluster.istio_version == s.istio_version
    &&& d.cluster.mesh_instance_count == s.mesh_instances@.len()
    &&& d.cluster.ambient_mesh_count == ambient_meshes(s.mesh_instances@)
    &&& d.summary == s.summary
    &&& d.mesh_instances == s.mesh_instances
    &&& d.migration_savings == savings_of(s.mesh_instances@)
    &&& d.last_updated == s.captured_at
    &&& d.connection_namespace is None
    &&& d.connection_name is None
    &&& d.reachable is None
    &&& d.is_hub is None
}

fn platform_text(p: Option<String>) -> (r: String)
    ensures
        r@ == platform_or_default(p),
{
    match p {
        Some(s) => s,
        None => owned("Kubernetes"),
    }
}

fn flavor_text(f: Option<String>) -> (r: String)
    ensures
        r@ == flavor_or_default(f),
{
    match f {
        Some(s) => s,
        None => String::new(),
    }
}

/// Dashboard of a stored snapshot, with its cluster's mesh counts and savings estimate
/// recomputed from the stored meshes.
pub fn snapshot_dashboard(s: StoredSnapshot) -> (r: DashboardResponse)
    ensures
        snapshot_dashboard_of(r, s),
{
    let mut ambient: usize = 0;
    let mut i: usize = 0;
    while i < s.mesh_instances.len()
        invariant
            i <= s.mesh_instances@.len(),
            ambient == ambient_meshes(s.mesh_instances@.take(i as int)),
            ambient <= i,
        decreases s.mesh_instances@.len() - i,
    {
        assert(s.mesh_instances@.take(i + 1).drop_last() =~= s.mesh_instances@.take(i as int));
        if s.mesh_instances[i].ambient {
            ambient += 1;
        }
        i += 1;
    }
    assert(s.mesh_instances@.take(s.mesh_instances@.len() as int) =~= s.mesh_instances@);
    let migration_savings = crate::cluster_view::checked_migration_savings(&s.mesh_instances);
    let mesh_instance_count = s.mesh_instances.len();
    DashboardResponse {
        cluster_ref: s.cluster_ref,
        cluster: ClusterDashboard {
            name: s.display_name,
            platform: platform_text(s.platform),
            mesh_flavor: flavor_text(s.mesh_flavor),
            istio_version: s.istio_version,
            mesh_instance_count,
            ambient_mesh_count: ambient,
        },
        summary: s.summary,
        mesh_instances: s.mesh_instances,
        migration_savings,
        last_updated: s.captured_at,
        connection_namespace: None,
        connection_name: None,
        reachable: None,
        is_hub: None,
    }
}

/// Whether one instant, as seconds and nanoseconds, is before another.
pub open spec fn instant_lt(a: (i64, u32), b: (i64, u32)) -> bool {
    a.0 < b.0 || (a.0 == b.0 && a.1 < b.1)
}

/// Latest instant named by a list of RFC 3339 texts; texts that name none are skipped.
pub open spec fn latest_instant(texts: Seq<Seq<char>>) -> Option<(i64, u32)>
    decreases texts.len(),
{
    if texts.len() == 0 {
        None
    } else {
        let prev = latest_instant(texts.drop_last());
        match rfc3339_instant(texts.last()) {
            None => prev,
            Some(t) => match prev {
                None => Some(t),
                Some(p) => if instant_lt(t, p) {
                    Some(p)
                } else {
                    Some(t)
                },
            },
        }
    }
}

/// Update times of fleet entries.
pub open spec fn entry_times(s: Seq<FleetClusterDashboard>) -> Seq<Seq<char>> {
    s.map_values(|c: FleetClusterDashboard| c.last_updated@)
}

/// Summaries of fleet entries.
pub open spec fn entry_summaries(s: Seq<FleetClusterDashboard>) -> Seq<StatusCounts> {
    s.map_values(|c: FleetClusterDashboard| c.summary)
}

/// Whether a fleet entry shows a stored snapshot.
pub open spec fn fleet_entry_of(e: FleetClusterDashboard, s: StoredSnapshot) -> bool {
    exists|d: DashboardResponse|
        #![trigger snapshot_dashboard_of(d, s)]
        snapshot_dashboard_of(d, s) && e == (FleetClusterDashboard {
            cluster_ref: d.cluster_ref,
            cluster: d.cluster,
            summary: d.summary,
            mesh_instances: d.mesh_instances,
            last_updated: d.last_updated,
        })
}

/// Summaries of stored snapshots.
pub open spec fn snapshot_summaries(s: Seq<StoredSnapshot>) -> Seq<StatusCounts> {
    s.map_values(|x: StoredSnapshot| x.summary)
}

/// Fleet made of the latest stored snapshot of every cluster, in the order given: its
/// summary sums theirs, and it was last updated at the latest of their times (the current
/// time when none of them reads as one). No fleet when nothing is stored.
pub fn fleet_from_snapshots(snapshots: Vec<StoredSnapshot>) -> (r: Option<FleetDashboardResponse>)
    requires
        sum_six(snapshot_summaries(snapshots@)) <= usize::MAX,
    ensures
        snapshots@.len() == 0 <==> r is None,
        r matches Some(f) ==> {
            &&& f.clusters@.len() == snapshots@.len()
            &&& forall|k: int| 0 <= k < snapshots@.len() ==> fleet_entry_of(#[trigger] f.clusters@[k], snapshots@[k])
            &&& summary_of(f.summary, snapshot_summaries(snapshots@))
            &&& (latest_instant(entry_times(f.clusters@)) matches Some(t) ==> f.last_updated@ == rfc3339_utc_text(
                t.0,
                t.1,
            ))
            &&& (latest_instant(entry_times(f.clusters@)) is None ==> crate::clock::instant_text(f.last_updated@))
        },
{
    if snapshots.len() == 0 {
        return None;
    }
    let ghost olds = snapshots@;
    let mut rest = snapshots;
    let mut clusters: Vec<FleetClusterDashboard> = Vec::new();
    let mut summaries: Vec<StatusCounts> = Vec::new();
    let mut latest: Option<(i64, u32)> = None;
    while rest.len() > 0
        invariant
            clusters@.len() + rest@.len() == olds.len(),
            rest@ == olds.subrange(clusters@.len() as int, olds.len() as int),
            summaries@ == snapshot_summaries(olds.take(clusters@.len() as int)),
            summaries@ == entry_summaries(clusters@),
            latest == latest_instant(entry_times(clusters@)),
            forall|k: int| 0 <= k < clusters@.len() ==> fleet_entry_of(#[trigger] clusters@[k], olds[k]),
        decreases rest@.len(),
    {
        let s = rest.remove(0);
        let ghost n: int = clusters@.len() as int;
        let ghost s0 = s;
        proof {
            assert(s == olds[n]);
            assert(rest@ =~= olds.subrange(n + 1, olds.len() as int));
        }
        let d = snapshot_dashboard(s);
        let t = parse_rfc3339(d.last_updated.as_str());
        let ghost before = clusters@;
        let ghost sbefore = summaries@;
        latest = match t {
            None => latest,
            Some(tt) => match latest {
                None => Some(tt),
                Some(p) => if tt.0 < p.0 || (tt.0 == p.0 && tt.1 < p.1) {
                    Some(p)
                } else {
                    Some(tt)
                },
            },
        };
        summaries.push(d.summary);
        let entry = FleetClusterDashboard {
            cluster_ref: d.cluster_ref,
            cluster: d.cluster,
            summary: d.summary,
            mesh_instances: d.mesh_instances,
            last_updated: d.last_updated,
        };
        clusters.push(entry);
        proof {
            assert(snapshot_dashboard_of(d, s0));
            assert(fleet_entry_of(clusters@[n], olds[n]));
            assert(clusters@.drop_last() =~= before);
            assert(entry_times(clusters@).drop_last() =~= entry_times(before));
            assert(entry_times(clusters@).last() == d.last_updated@);
            assert(olds.take(n + 1) =~= olds.take(n).push(s0));
            assert(snapshot_summaries(olds.take(n + 1)) =~= snapshot_summaries(olds.take(n)).push(s0.summary));
            assert(summaries@ =~= sbefore.push(d.summary));
            assert(entry_summaries(clusters@) =~= entry_summaries(before).push(d.summary));
        }
    }
    proof {
        assert(olds.take(olds.len() as int) =~= olds);
    }
    let summary = aggregate_fleet_summary(summaries.as_slice());
    let last_updated = match latest {
        Some(t) => format_rfc3339_utc(t.0, t.1),
        None => utc_now_rfc3339(),
    };
    Some(FleetDashboardResponse { summary, clusters, last_updated })
}

/// Identity of a stored cluster, decoded.
#[derive(Debug)]
pub struct StoredClusterMeta {
    pub display_name: String,
    pub platform: Option<String>,
    pub mesh_flavor: Option<String>,
    pub istio_version: Option<String>,
}

/// Whether a dashboard cluster is the stored one, with no mesh counted yet.
pub open spec fn cluster_of_meta(c: ClusterDashboard, m: StoredClusterMeta) -> bool {
    &&& c.name == m.display_name
    &&& c.platform@ == platform_or_default(m.platform)
    &&& c.mesh_flavor@ == flavor_or_default(m.mesh_flavor)
    &&& c.istio_version == m.istio_version
    &&& c.mesh_instance_count == 0
    &&& c.ambient_mesh_count == 0
}

/// Dashboard rebuilt from the latest stored assessment of a cluster, without asking the
/// cluster anything: none when that assessment holds no application.
pub fn rebuild_dashboard(cluster_ref: &str, meta: StoredClusterMeta, applications: Vec<ApplicationAssessmentRecord>) -> (r: Option<DashboardResponse>)
    ensures
        applications@.len() == 0 <==> r is None,
        r matches Some(d) ==> exists|run: ClusterAssessmentRun, c: ClusterDashboard, t: Seq<char>|
            #![trigger run_dashboard(d, run, c, t)]
            run.cluster_ref@ == cluster_ref@ && run.applications == applications && cluster_of_meta(c, meta)
                && run_dashboard(d, run, c, t),
{
    if applications.len() == 0 {
        return None;
    }
    let ghost m = meta;
    let run = ClusterAssessmentRun {
        cluster_ref: owned(cluster_ref),
        applications,
        cluster_scores: AssessmentScores::zero(),
        cluster_summary: FindingSummary::zero(),
        cluster_findings: Vec::new(),
    };
    let cluster = ClusterDashboard {
        name: meta.display_name,
        platform: platform_text(meta.platform),
        mesh_flavor: flavor_text(meta.mesh_flavor),
        istio_version: meta.istio_version,
        mesh_instance_count: 0,
        ambient_mesh_count: 0,
    };
    let ghost c = cluster;
    let d = dashboard_from_assessment_run(&run, cluster);
    proof {
        assert(cluster_of_meta(c, m));
        let t = choose|t: Seq<char>| run_dashboard(d, run, c, t);
        assert(run_dashboard(d, run, c, t));
    }
    Some(d)
}

/// Hub and reachability flags written for a cluster: as the dashboard records them, else
/// hub exactly when the dashboard names no connection, and reachable.
pub fn cluster_upsert_flags(response: &DashboardResponse) -> (r: (bool, bool))
    ensures
        r.0 == match response.is_hub {
            Some(h) => h,
            None => connection_parts(
                crate::model::opt_view(response.connection_namespace),
                crate::model::opt_view(response.connection_name),
                response.cluster_ref@,
            ).0 is None,
        },
        r.1 == match response.reachable {
            Some(b) => b,
            None => true,
        },
{
    let (ns, _name) = connection_parts_from_response(response);
    let is_hub = match response.is_hub {
        Some(h) => h,
        None => ns.is_none(),
    };
    let reachable = match response.reachable {
        Some(b) => b,
        None => true,
    };
    (is_hub, reachable)
}

/// Dashboard that stands for a cluster first seen through an assessment: named after its
/// reference, on Kubernetes, with nothing counted yet.
pub fn placeholder_dashboard(cluster_ref: &str) -> (r: DashboardResponse)
    ensures
        r.cluster_ref@ == cluster_ref@,
        r.cluster.name@ == cluster_ref@,
        r.cluster.platform@ == "Kubernetes"@,
        r.cluster.mesh_flavor@ == Seq::<char>::empty(),
        r.cluster.istio_version is None,
        r.cluster.mesh_instance_count == 0,
        r.cluster.ambient_mesh_count == 0,
        r.summary == crate::dashboard::no_counts(),
        r.mesh_instances@.len() == 0,
        r.migration_savings is None,
        r.connection_namespace is None,
        r.connection_name is None,
        r.reachable is None,
        r.is_hub is None,
        crate::clock::instant_text(r.last_updated@),
{
    DashboardResponse {
        cluster_ref: owned(cluster_ref),
        cluster: ClusterDashboard {
            name: owned(cluster_ref),
            platform: owned("Kubernetes"),
            mesh_flavor: String::new(),
            istio_version: None,
            mesh_instance_count: 0,
            ambient_mesh_count: 0,
        },
        summary: StatusCounts::zero(),
        mesh_instances: Vec::new(),
        migration_savings: None,
        last_updated: utc_now_rfc3339(),
        connection_namespace: None,
        connection_name: None,
        reachable: None,
        is_hub: None,
    }
}


/// Assessment payload recorded with a scan run.
#[derive(Debug)]
pub struct StoredAssessment {
    pub findings: Vec<Finding>,
    pub scores: AssessmentScores,
    pub summary: FindingSummary,
    pub source: Option<String>,
    pub assessment_name: Option<String>,
}

/// Payload of a scan the portal ran: the pipeline's findings, scores and summary, from the
/// `api` when it ran on the hub and from `connection:<namespace>/<name>` when it ran on a
/// spoke through that connection.
pub fn scan_payload(result: &crate::inventory::AssessmentResult, connection: Option<(&str, &str)>) -> (r: StoredAssessment)
    ensures
        r.findings@ == result.findings@,
        r.scores == result.scores,
        r.summary == result.summary,
        r.source matches Some(src) && src@ == match connection {
            Some((ns, name)) => "connection:"@ + ns@ + "/"@ + name@,
            None => "api"@,
        },
        r.assessment_name is None,
{
    let source = match connection {
        Some((ns, name)) => {
            let mut s = owned("connection:");
            s.append(ns);
            s.append("/");
            s.append(name);
            s
        },
        None => owned("api"),
    };
    StoredAssessment {
        findings: crate::model::duplicate_findings(&result.findings),
        scores: result.scores,
        summary: result.summary,
        source: Some(source),
        assessment_name: None,
    }
}

} // verus!
