//! Status counting, rollout overlays and savings estimates over dashboards.

use vstd::prelude::*;

use crate::dashboard::{
    ApplicationMigrationStatus, ApplicationRow, FleetDashboardResponse, MeshInstanceDashboard,
    MigrationSavingsSummary, StatusCounts, DashboardResponse,
};
use crate::labels::Labels;
use crate::dataplane::{label_is, namespace_is_migrated, spec_is_migrated};
use crate::model::{clone_opt_string, Finding, MeshInstance};
use crate::text::str_eq;

verus! {

/// Number of rows with a status.
pub open spec fn status_count(apps: Seq<ApplicationRow>, st: ApplicationMigrationStatus) -> nat
    decreases apps.len(),
{
    if apps.len() == 0 {
        0
    } else {
        status_count(apps.drop_last(), st) + if apps.last().status == st {
            1nat
        } else {
            0nat
        }
    }
}

/// Counts that match the statuses of a list of rows.
pub open spec fn counts_of(c: StatusCounts, apps: Seq<ApplicationRow>) -> bool {
    &&& c.migrated == status_count(apps, ApplicationMigrationStatus::Migrated)
    &&& c.processing == status_count(apps, ApplicationMigrationStatus::Processing)
    &&& c.blocker == status_count(apps, ApplicationMigrationStatus::Blocker)
    &&& c.failed == status_count(apps, ApplicationMigrationStatus::Failed)
    &&& c.scanned == status_count(apps, ApplicationMigrationStatus::Scanned)
    &&& c.not_scanned == status_count(apps, ApplicationMigrationStatus::NotScanned)
    &&& c.total == apps.len()
}

/// Sum of the six per-status counts.
pub open spec fn six_sum(c: StatusCounts) -> int {
    c.migrated + c.processing + c.blocker + c.failed + c.scanned + c.not_scanned
}

/// Per-status sums over a list of counts.
pub open spec fn sum_counts(parts: Seq<StatusCounts>) -> (int, int, int, int, int, int)
    decreases parts.len(),
{
    if parts.len() == 0 {
        (0, 0, 0, 0, 0, 0)
    } else {
        let p = sum_counts(parts.drop_last());
        let c = parts.last();
        (p.0 + c.migrated, p.1 + c.processing, p.2 + c.blocker, p.3 + c.failed, p.4 + c.scanned, p.5
            + c.not_scanned)
    }
}

/// Sum of the six-sums of a list of counts.
pub open spec fn sum_six(parts: Seq<StatusCounts>) -> int
    decreases parts.len(),
{
    if parts.len() == 0 {
        0
    } else {
        sum_six(parts.drop_last()) + six_sum(parts.last())
    }
}

/// A summary that aggregates a list of counts: per-status sums and their total.
pub open spec fn summary_of(s: StatusCounts, parts: Seq<StatusCounts>) -> bool {
    let t = sum_counts(parts);
    &&& s.migrated == t.0
    &&& s.processing == t.1
    &&& s.blocker == t.2
    &&& s.failed == t.3
    &&& s.scanned == t.4
    &&& s.not_scanned == t.5
    &&& s.total == t.0 + t.1 + t.2 + t.3 + t.4 + t.5
}

pub proof fn lemma_sum_counts_bounds(parts: Seq<StatusCounts>)
    ensures
        sum_counts(parts).0 >= 0 && sum_counts(parts).1 >= 0 && sum_counts(parts).2 >= 0
            && sum_counts(parts).3 >= 0 && sum_counts(parts).4 >= 0 && sum_counts(parts).5 >= 0,
        sum_counts(parts).0 + sum_counts(parts).1 + sum_counts(parts).2 + sum_counts(parts).3
            + sum_counts(parts).4 + sum_counts(parts).5 == sum_six(parts),
    decreases parts.len(),
{
    if parts.len() > 0 {
        lemma_sum_counts_bounds(parts.drop_last());
    }
}

pub proof fn lemma_status_count_bound(apps: Seq<ApplicationRow>, st: ApplicationMigrationStatus)
    ensures
        status_count(apps, st) <= apps.len(),
    decreases apps.len(),
{
    if apps.len() > 0 {
        lemma_status_count_bound(apps.drop_last(), st);
    }
}

pub proof fn lemma_status_counts_partition(apps: Seq<ApplicationRow>)
    ensures
        status_count(apps, ApplicationMigrationStatus::Migrated) + status_count(
            apps,
            ApplicationMigrationStatus::Processing,
        ) + status_count(apps, ApplicationMigrationStatus::Blocker) + status_count(
            apps,
            ApplicationMigrationStatus::Failed,
        ) + status_count(apps, ApplicationMigrationStatus::Scanned) + status_count(
            apps,
            ApplicationMigrationStatus::NotScanned,
        ) == apps.len(),
    decreases apps.len(),
{
    if apps.len() > 0 {
        lemma_status_counts_partition(apps.drop_last());
    }
}

/// Count one more application with the given status.
pub fn increment_count(counts: &mut StatusCounts, status: ApplicationMigrationStatus)
    requires
        match status {
            ApplicationMigrationStatus::Migrated => old(counts).migrated < usize::MAX,
            ApplicationMigrationStatus::Processing => old(counts).processing < usize::MAX,
            ApplicationMigrationStatus::Blocker => old(counts).blocker < usize::MAX,
            ApplicationMigrationStatus::Failed => old(counts).failed < usize::MAX,
            ApplicationMigrationStatus::Scanned => old(counts).scanned < usize::MAX,
            ApplicationMigrationStatus::NotScanned => old(counts).not_scanned < usize::MAX,
        },
    ensures
        final(counts).total == old(counts).total,
        final(counts).migrated == old(counts).migrated + if status == ApplicationMigrationStatus::Migrated { 1int } else { 0int },
        final(counts).processing == old(counts).processing + if status == ApplicationMigrationStatus::Processing { 1int } else { 0int },
        final(counts).blocker == old(counts).blocker + if status == ApplicationMigrationStatus::Blocker { 1int } else { 0int },
        final(counts).failed == old(counts).failed + if status == ApplicationMigrationStatus::Failed { 1int } else { 0int },
        final(counts).scanned == old(counts).scanned + if status == ApplicationMigrationStatus::Scanned { 1int } else { 0int },
        final(counts).not_scanned == old(counts).not_scanned + if status == ApplicationMigrationStatus::NotScanned { 1int } else { 0int },
{
    match status {
        ApplicationMigrationStatus::Migrated => counts.migrated += 1,
        ApplicationMigrationStatus::Processing => counts.processing += 1,
        ApplicationMigrationStatus::Blocker => counts.blocker += 1,
        ApplicationMigrationStatus::Failed => counts.failed += 1,
        ApplicationMigrationStatus::Scanned => counts.scanned += 1,
        ApplicationMigrationStatus::NotScanned => counts.not_scanned += 1,
    }
}

/// Add a part's per-status counts to a summary.
pub fn aggregate_counts(summary: &mut StatusCounts, part: &StatusCounts)
    requires
        old(summary).migrated + part.migrated <= usize::MAX,
        old(summary).processing + part.processing <= usize::MAX,
        old(summary).blocker + part.blocker <= usize::MAX,
        old(summary).failed + part.failed <= usize::MAX,
        old(summary).scanned + part.scanned <= usize::MAX,
        old(summary).not_scanned + part.not_scanned <= usize::MAX,
    ensures
        final(summary).total == old(summary).total,
        final(summary).migrated == old(summary).migrated + part.migrated,
        final(summary).processing == old(summary).processing + part.processing,
        final(summary).blocker == old(summary).blocker + part.blocker,
        final(summary).failed == old(summary).failed + part.failed,
        final(summary).scanned == old(summary).scanned + part.scanned,
        final(summary).not_scanned == old(summary).not_scanned + part.not_scanned,
{
    summary.migrated += part.migrated;
    summary.processing += part.processing;
    summary.blocker += part.blocker;
    summary.failed += part.failed;
    summary.scanned += part.scanned;
    summary.not_scanned += part.not_scanned;
}

/// Sum of a list of counts, with the total recomputed from the per-status sums.
pub fn aggregate_fleet_summary(parts: &[StatusCounts]) -> (r: StatusCounts)
    requires
        sum_six(parts@) <= usize::MAX,
    ensures
        summary_of(r, parts@),
{
    let mut summary = StatusCounts::zero();
    let mut i: usize = 0;
    while i < parts.len()
        invariant
            i <= parts@.len(),
            sum_six(parts@) <= usize::MAX,
            summary.total == 0,
            summary.migrated == sum_counts(parts@.take(i as int)).0,
            summary.processing == sum_counts(parts@.take(i as int)).1,
            summary.blocker == sum_counts(parts@.take(i as int)).2,
            summary.failed == sum_counts(parts@.take(i as int)).3,
            summary.scanned == sum_counts(parts@.take(i as int)).4,
            summary.not_scanned == sum_counts(parts@.take(i as int)).5,
            six_sum(summary) == sum_six(parts@.take(i as int)),
        decreases parts@.len() - i,
    {
        assert(parts@.take(i + 1).drop_last() =~= parts@.take(i as int));
        proof {
            lemma_sum_six_prefix(parts@, i as int + 1);
        }
        aggregate_counts(&mut summary, &parts[i]);
        i += 1;
    }
    assert(parts@.take(parts@.len() as int) =~= parts@);
    proof {
        lemma_sum_counts_bounds(parts@);
    }
    summary.total = summary.migrated + summary.processing + summary.blocker + summary.failed
        + summary.scanned + summary.not_scanned;
    summary
}

pub proof fn lemma_sum_six_prefix(parts: Seq<StatusCounts>, k: int)
    requires
        0 <= k <= parts.len(),
    ensures
        sum_six(parts.take(k)) <= sum_six(parts),
    decreases parts.len(),
{
    if k < parts.len() {
        assert(parts.drop_last().take(k) =~= parts.take(k));
        lemma_sum_six_prefix(parts.drop_last(), k);
        assert(six_sum(parts.last()) >= 0);
    } else {
        assert(parts.take(k) =~= parts);
    }
}

/// Status of an application given the phase of the rollout that targets it.
pub open spec fn spec_status_from_phase(phase: Seq<char>, mesh_ambient: bool, dataplane_mode: Seq<char>) -> ApplicationMigrationStatus {
    if phase == "Failed"@ || phase == "RolledBack"@ {
        ApplicationMigrationStatus::Failed
    } else if phase == "Completed"@ {
        if mesh_ambient && dataplane_mode == "ambient"@ {
            ApplicationMigrationStatus::Migrated
        } else {
            ApplicationMigrationStatus::Scanned
        }
    } else {
        ApplicationMigrationStatus::Processing
    }
}

/// Status of an application given the phase of the rollout that targets it.
pub fn status_from_rollout_phase(phase: &str, mesh_ambient: bool, dataplane_mode: &str) -> (r: ApplicationMigrationStatus)
    ensures
        r == spec_status_from_phase(phase@, mesh_ambient, dataplane_mode@),
{
    if str_eq(phase, "Failed") || str_eq(phase, "RolledBack") {
        ApplicationMigrationStatus::Failed
    } else if str_eq(phase, "Completed") {
        if mesh_ambient && str_eq(dataplane_mode, "ambient") {
            ApplicationMigrationStatus::Migrated
        } else {
            ApplicationMigrationStatus::Scanned
        }
    } else {
        ApplicationMigrationStatus::Processing
    }
}

/// `new` is `old` with the phase of the rollout targeting its namespace applied, if any.
pub open spec fn row_overlaid(
    old: ApplicationRow,
    new: ApplicationRow,
    phases: Map<Seq<char>, Seq<char>>,
    mesh_ambient: bool,
) -> bool {
    &&& new.application_name == old.application_name
    &&& new.namespace == old.namespace
    &&& new.mesh_revision == old.mesh_revision
    &&& new.discovery_label == old.discovery_label
    &&& new.dataplane_mode == old.dataplane_mode
    &&& new.ambient_dataplane == old.ambient_dataplane
    &&& new.blocker_count == old.blocker_count
    &&& new.workload_count == old.workload_count
    &&& new.assessment_ref == old.assessment_ref
    &&& if phases.contains_key(old.namespace@) {
        &&& new.rollout_phase is Some
        &&& new.rollout_phase->0@ == phases[old.namespace@]
        &&& new.status == spec_status_from_phase(
            phases[old.namespace@],
            mesh_ambient,
            old.dataplane_mode@,
        )
    } else {
        &&& new.rollout_phase == old.rollout_phase
        &&& new.status == old.status
    }
}

/// `new` is mesh `old` with rollout phases applied to every row and its counts recomputed.
pub open spec fn mesh_overlaid(
    old: MeshInstanceDashboard,
    new: MeshInstanceDashboard,
    phases: Map<Seq<char>, Seq<char>>,
) -> bool {
    &&& new.revision == old.revision
    &&& new.discovery_label == old.discovery_label
    &&& new.control_plane_namespace == old.control_plane_namespace
    &&& new.version == old.version
    &&& new.ambient == old.ambient
    &&& new.applications@.len() == old.applications@.len()
    &&& forall|j: int|
        0 <= j < old.applications@.len() ==> row_overlaid(
            #[trigger] old.applications@[j],
            new.applications@[j],
            phases,
            old.ambient,
        )
    &&& counts_of(new.counts, new.applications@)
}

/// Total number of application rows over a list of meshes.
pub open spec fn total_rows(meshes: Seq<MeshInstanceDashboard>) -> int
    decreases meshes.len(),
{
    if meshes.len() == 0 {
        0
    } else {
        total_rows(meshes.drop_last()) + meshes.last().applications@.len()
    }
}

/// Counts of a list of meshes.
pub open spec fn mesh_counts(meshes: Seq<MeshInstanceDashboard>) -> Seq<StatusCounts> {
    meshes.map_values(|m: MeshInstanceDashboard| m.counts)
}

fn overlay_row(row: &ApplicationRow, rollouts: &Labels, mesh_ambient: bool) -> (r: ApplicationRow)
    ensures
        row_overlaid(*row, r, rollouts@, mesh_ambient),
{
    let mut out = row.duplicate();
    match rollouts.get(row.namespace.as_str()) {
        Some(phase) => {
            out.rollout_phase = Some(phase.clone());
            out.status = status_from_rollout_phase(phase.as_str(), mesh_ambient, row.dataplane_mode.as_str());
        },
        None => {},
    }
    out
}

fn overlay_mesh(mesh: &MeshInstanceDashboard, rollouts: &Labels) -> (r: MeshInstanceDashboard)
    ensures
        mesh_overlaid(*mesh, r, rollouts@),
{
    let mut apps: Vec<ApplicationRow> = Vec::new();
    let mut counts = StatusCounts::zero();
    let mut j: usize = 0;
    while j < mesh.applications.len()
        invariant
            j <= mesh.applications@.len(),
            apps@.len() == j,
            forall|k: int| 0 <= k < j ==> row_overlaid(#[trigger] mesh.applications@[k], apps@[k], rollouts@, mesh.ambient),
            counts.total == 0,
            counts.migrated == status_count(apps@, ApplicationMigrationStatus::Migrated),
            counts.processing == status_count(apps@, ApplicationMigrationStatus::Processing),
            counts.blocker == status_count(apps@, ApplicationMigrationStatus::Blocker),
            counts.failed == status_count(apps@, ApplicationMigrationStatus::Failed),
            counts.scanned == status_count(apps@, ApplicationMigrationStatus::Scanned),
            counts.not_scanned == status_count(apps@, ApplicationMigrationStatus::NotScanned),
        decreases mesh.applications@.len() - j,
    {
        let row = overlay_row(&mesh.applications[j], rollouts, mesh.ambient);
        proof {
            lemma_status_counts_partition(apps@);
        }
        increment_count(&mut counts, row.status);
        let ghost before = apps@;
        apps.push(row);
        assert(apps@.drop_last() =~= before);
        j += 1;
    }
    counts.total = apps.len();
    MeshInstanceDashboard {
        revision: mesh.revision.clone(),
        discovery_label: mesh.discovery_label.clone(),
        control_plane_namespace: mesh.control_plane_namespace.clone(),
        version: clone_opt_string(&mesh.version),
        ambient: mesh.ambient,
        counts,
        applications: apps,
    }
}

pub proof fn lemma_total_rows_prefix(meshes: Seq<MeshInstanceDashboard>, k: int)
    requires
        0 <= k <= meshes.len(),
    ensures
        total_rows(meshes.take(k)) <= total_rows(meshes),
        total_rows(meshes.take(k)) >= 0,
    decreases meshes.len(),
{
    if k < meshes.len() {
        assert(meshes.drop_last().take(k) =~= meshes.take(k));
        lemma_total_rows_prefix(meshes.drop_last(), k);
    } else {
        assert(meshes.take(k) =~= meshes);
        lemma_total_rows_nonneg(meshes);
    }
}

pub proof fn lemma_total_rows_nonneg(meshes: Seq<MeshInstanceDashboard>)
    ensures
        total_rows(meshes) >= 0,
    decreases meshes.len(),
{
    if meshes.len() > 0 {
        lemma_total_rows_nonneg(meshes.drop_last());
    }
}

/// Apply rollout phases to every row of every mesh, recompute each mesh's counts, and
/// recompute the summary from the mesh counts.
pub fn overlay_rollout_status_parts(
    mesh_instances: &mut Vec<MeshInstanceDashboard>,
    summary: &mut StatusCounts,
    rollouts: &Labels,
)
    requires
        total_rows(old(mesh_instances)@) <= usize::MAX,
    ensures
        final(mesh_instances)@.len() == old(mesh_instances)@.len(),
        forall|i: int|
            0 <= i < old(mesh_instances)@.len() ==> mesh_overlaid(
                #[trigger] old(mesh_instances)@[i],
                final(mesh_instances)@[i],
                rollouts@,
            ),
        summary_of(*final(summary), mesh_counts(final(mesh_instances)@)),
{
    let mut meshes: Vec<MeshInstanceDashboard> = Vec::new();
    let mut acc = StatusCounts::zero();
    let mut i: usize = 0;
    let ghost olds = mesh_instances@;
    while i < mesh_instances.len()
        invariant
            olds == mesh_instances@,
            total_rows(olds) <= usize::MAX,
            i <= olds.len(),
            meshes@.len() == i,
            forall|k: int| 0 <= k < i ==> mesh_overlaid(#[trigger] olds[k], meshes@[k], rollouts@),
            acc.total == 0,
            acc.migrated == sum_counts(mesh_counts(meshes@)).0,
            acc.processing == sum_counts(mesh_counts(meshes@)).1,
            acc.blocker == sum_counts(mesh_counts(meshes@)).2,
            acc.failed == sum_counts(mesh_counts(meshes@)).3,
            acc.scanned == sum_counts(mesh_counts(meshes@)).4,
            acc.not_scanned == sum_counts(mesh_counts(meshes@)).5,
            six_sum(acc) == total_rows(olds.take(i as int)),
        decreases olds.len() - i,
    {
        let m = overlay_mesh(&mesh_instances[i], rollouts);
        proof {
            assert(olds.take(i + 1).drop_last() =~= olds.take(i as int));
            lemma_total_rows_prefix(olds, i + 1);
            lemma_status_counts_partition(m.applications@);
        }
        aggregate_counts(&mut acc, &m.counts);
        let ghost before = meshes@;
        meshes.push(m);
        proof {
            assert(meshes@.drop_last() =~= before);
            assert(mesh_counts(meshes@).drop_last() =~= mesh_counts(before));
        }
        i += 1;
    }
    proof {
        lemma_sum_counts_bounds(mesh_counts(meshes@));
        assert(olds.take(olds.len() as int) =~= olds);
    }
    acc.total = acc.migrated + acc.processing + acc.blocker + acc.failed + acc.scanned + acc.not_scanned;
    *mesh_instances = meshes;
    *summary = acc;
}

/// Apply hub Rollout phases onto a dashboard snapshot (DB cache / assessment rebuild).
/// Without any rollout phase the dashboard is left as it is.
pub fn overlay_rollout_status(response: &mut DashboardResponse, rollouts: &Labels)
    requires
        total_rows(old(response).mesh_instances@) <= usize::MAX,
    ensures
        rollouts.entries@.len() == 0 ==> *final(response) == *old(response),
        rollouts.entries@.len() > 0 ==> {
            &&& final(response).mesh_instances@.len() == old(response).mesh_instances@.len()
            &&& forall|i: int|
                0 <= i < old(response).mesh_instances@.len() ==> mesh_overlaid(
                    #[trigger] old(response).mesh_instances@[i],
                    final(response).mesh_instances@[i],
                    rollouts@,
                )
            &&& summary_of(final(response).summary, mesh_counts(final(response).mesh_instances@))
            &&& final(response).cluster_ref == old(response).cluster_ref
            &&& final(response).cluster == old(response).cluster
            &&& final(response).migration_savings == old(response).migration_savings
            &&& final(response).last_updated == old(response).last_updated
            &&& final(response).connection_namespace == old(response).connection_namespace
            &&& final(response).connection_name == old(response).connection_name
            &&& final(response).reachable == old(response).reachable
            &&& final(response).is_hub == old(response).is_hub
        },
{
    if rollouts.len() == 0 {
        return;
    }
    overlay_rollout_status_parts(&mut response.mesh_instances, &mut response.summary, rollouts);
}

/// Rollout phases per cluster: cluster reference and the phases of its namespaces.
pub struct ClusterPhases {
    pub entries: Vec<(String, Labels)>,
}

/// Phases for a cluster: those of the first entry with that cluster reference.
pub open spec fn cluster_phases(entries: Seq<(String, Labels)>, cluster_ref: Seq<char>) -> Option<Map<Seq<char>, Seq<char>>>
    decreases entries.len(),
{
    if entries.len() == 0 {
        None
    } else if entries[0].0@ == cluster_ref {
        Some(entries[0].1@)
    } else {
        cluster_phases(entries.drop_first(), cluster_ref)
    }
}

fn find_cluster_phases<'a>(phases: &'a ClusterPhases, cluster_ref: &str) -> (r: Option<&'a Labels>)
    ensures
        match r {
            Some(l) => cluster_phases(phases.entries@, cluster_ref@) == Some(l@),
            None => cluster_phases(phases.entries@, cluster_ref@) is None,
        },
{
    let ghost es = phases.entries@;
    let mut i: usize = 0;
    assert(es.subrange(0, es.len() as int) =~= es);
    while i < phases.entries.len()
        invariant
            es == phases.entries@,
            i <= es.len(),
            cluster_phases(es, cluster_ref@) == cluster_phases(es.subrange(i as int, es.len() as int), cluster_ref@),
        decreases es.len() - i,
    {
        let ghost rest = es.subrange(i as int, es.len() as int);
        assert(rest[0] == es[i as int]);
        assert(rest.drop_first() =~= es.subrange(i + 1, es.len() as int));
        if str_eq(phases.entries[i].0.as_str(), cluster_ref) {
            return Some(&phases.entries[i].1);
        }
        i += 1;
    }
    None
}

/// Total number of rows over the clusters of a fleet.
pub open spec fn fleet_rows(clusters: Seq<crate::dashboard::FleetClusterDashboard>) -> int
    decreases clusters.len(),
{
    if clusters.len() == 0 {
        0
    } else {
        fleet_rows(clusters.drop_last()) + total_rows(clusters.last().mesh_instances@)
    }
}

/// Summaries of a list of fleet clusters.
pub open spec fn fleet_summaries(clusters: Seq<crate::dashboard::FleetClusterDashboard>) -> Seq<StatusCounts> {
    clusters.map_values(|c: crate::dashboard::FleetClusterDashboard| c.summary)
}

/// What a fleet cluster entry becomes once the phases of its cluster, if any, are applied.
pub open spec fn fleet_cluster_overlaid(
    o: crate::dashboard::FleetClusterDashboard,
    n: crate::dashboard::FleetClusterDashboard,
    phases: Option<Map<Seq<char>, Seq<char>>>,
) -> bool {
    &&& n.cluster_ref == o.cluster_ref
    &&& n.cluster == o.cluster
    &&& n.last_updated == o.last_updated
    &&& match phases {
        Some(p) => {
            &&& n.mesh_instances@.len() == o.mesh_instances@.len()
            &&& forall|k: int|
                0 <= k < o.mesh_instances@.len() ==> mesh_overlaid(
                    #[trigger] o.mesh_instances@[k],
                    n.mesh_instances@[k],
                    p,
                )
            &&& summary_of(n.summary, mesh_counts(n.mesh_instances@))
        },
        None => meshes_same(n.mesh_instances@, o.mesh_instances@) && n.summary == o.summary,
    }
}

/// Two meshes with equal fields and equal application rows.
pub open spec fn mesh_same(a: MeshInstanceDashboard, b: MeshInstanceDashboard) -> bool {
    &&& a.revision == b.revision
    &&& a.discovery_label == b.discovery_label
    &&& a.control_plane_namespace == b.control_plane_namespace
    &&& a.version == b.version
    &&& a.ambient == b.ambient
    &&& a.counts == b.counts
    &&& a.applications@ == b.applications@
}

/// Two lists of meshes, pairwise `mesh_same`.
pub open spec fn meshes_same(a: Seq<MeshInstanceDashboard>, b: Seq<MeshInstanceDashboard>) -> bool {
    &&& a.len() == b.len()
    &&& forall|k: int| 0 <= k < a.len() ==> mesh_same(#[trigger] a[k], b[k])
}

pub proof fn lemma_fleet_rows_prefix(clusters: Seq<crate::dashboard::FleetClusterDashboard>, k: int)
    requires
        0 <= k <= clusters.len(),
    ensures
        0 <= fleet_rows(clusters.take(k)) <= fleet_rows(clusters),
    decreases clusters.len(),
{
    if k < clusters.len() {
        assert(clusters.drop_last().take(k) =~= clusters.take(k));
        lemma_fleet_rows_prefix(clusters.drop_last(), k);
        lemma_total_rows_nonneg(clusters.last().mesh_instances@);
    } else {
        assert(clusters.take(k) =~= clusters);
        if clusters.len() > 0 {
            lemma_fleet_rows_prefix(clusters.drop_last(), clusters.len() - 1);
            assert(clusters.drop_last().take(clusters.len() - 1) =~= clusters.drop_last());
            lemma_total_rows_nonneg(clusters.last().mesh_instances@);
        }
    }
}

pub proof fn lemma_total_rows_same(a: Seq<MeshInstanceDashboard>, b: Seq<MeshInstanceDashboard>)
    requires
        meshes_same(a, b),
    ensures
        total_rows(a) == total_rows(b),
    decreases a.len(),
{
    if a.len() > 0 {
        assert(mesh_same(a[a.len() - 1], b[b.len() - 1]));
        assert(meshes_same(a.drop_last(), b.drop_last())) by {
            assert forall|k: int| 0 <= k < a.drop_last().len() implies mesh_same(#[trigger] a.drop_last()[k], b.drop_last()[k]) by {
                assert(mesh_same(a[k], b[k]));
            }
        }
        lemma_total_rows_same(a.drop_last(), b.drop_last());
    }
}

pub proof fn lemma_sum_six_nonneg(parts: Seq<StatusCounts>)
    ensures
        sum_six(parts) >= 0,
    decreases parts.len(),
{
    if parts.len() > 0 {
        lemma_sum_six_nonneg(parts.drop_last());
    }
}

/// Overlay rollout phases on each fleet cluster entry and re-aggregate fleet summary.
pub fn overlay_fleet_rollout_status(fleet: &mut FleetDashboardResponse, rollouts_by_cluster: &ClusterPhases)
    requires
        fleet_rows(old(fleet).clusters@) + sum_six(fleet_summaries(old(fleet).clusters@)) <= usize::MAX,
    ensures
        final(fleet).clusters@.len() == old(fleet).clusters@.len(),
        forall|i: int|
            0 <= i < old(fleet).clusters@.len() ==> fleet_cluster_overlaid(
                #[trigger] old(fleet).clusters@[i],
                final(fleet).clusters@[i],
                cluster_phases(rollouts_by_cluster.entries@, old(fleet).clusters@[i].cluster_ref@),
            ),
        summary_of(final(fleet).summary, fleet_summaries(final(fleet).clusters@)),
        final(fleet).last_updated == old(fleet).last_updated,
{
    let ghost olds = fleet.clusters@;
    let mut clusters: Vec<crate::dashboard::FleetClusterDashboard> = Vec::new();
    let mut summaries: Vec<StatusCounts> = Vec::new();
    let mut i: usize = 0;
    proof {
        lemma_sum_six_nonneg(fleet_summaries(olds));
        lemma_fleet_rows_prefix(olds, 0);
    }
    while i < fleet.clusters.len()
        invariant
            fleet.clusters@ == olds,
            fleet_rows(olds) + sum_six(fleet_summaries(olds)) <= usize::MAX,
            i <= olds.len(),
            clusters@.len() == i,
            summaries@ == fleet_summaries(clusters@),
            sum_six(summaries@) <= fleet_rows(olds.take(i as int)) + sum_six(
                fleet_summaries(olds.take(i as int)),
            ),
            forall|k: int|
                0 <= k < i ==> fleet_cluster_overlaid(
                    #[trigger] olds[k],
                    clusters@[k],
                    cluster_phases(rollouts_by_cluster.entries@, olds[k].cluster_ref@),
                ),
        decreases olds.len() - i,
    {
        let c = &fleet.clusters[i];
        let ghost o = olds[i as int];
        proof {
            assert(olds.take(i + 1).drop_last() =~= olds.take(i as int));
            assert(fleet_summaries(olds.take(i + 1)) =~= fleet_summaries(olds.take(i as int)).push(o.summary));
            assert(fleet_summaries(olds.take(i + 1)).drop_last() =~= fleet_summaries(olds.take(i as int)));
            lemma_fleet_rows_prefix(olds, i + 1);
            lemma_fleet_rows_prefix(olds, i as int);
            lemma_sum_six_prefix(fleet_summaries(olds), i + 1);
            assert(fleet_summaries(olds).take(i + 1) =~= fleet_summaries(olds.take(i + 1)));
            lemma_sum_six_nonneg(fleet_summaries(olds.take(i as int)));
            lemma_total_rows_nonneg(o.mesh_instances@);
        }
        let mut summary = c.summary;
        let meshes: Vec<MeshInstanceDashboard>;
        match find_cluster_phases(rollouts_by_cluster, c.cluster_ref.as_str()) {
            Some(p) => {
                let mut ms = duplicate_meshes(&c.mesh_instances);
                let ghost copies = ms@;
                proof {
                    lemma_total_rows_same(copies, o.mesh_instances@);
                }
                overlay_rollout_status_parts(&mut ms, &mut summary, p);
                proof {
                    assert forall|k: int| 0 <= k < ms@.len() implies counts_of((#[trigger] ms@[k]).counts, ms@[k].applications@)
                        && ms@[k].applications@.len() == o.mesh_instances@[k].applications@.len() by {
                        assert(mesh_overlaid(copies[k], ms@[k], p@));
                        assert(mesh_same(copies[k], o.mesh_instances@[k]));
                    }
                    assert forall|k: int| 0 <= k < o.mesh_instances@.len() implies mesh_overlaid(
                        #[trigger] o.mesh_instances@[k], ms@[k], p@) by {
                        assert(mesh_overlaid(copies[k], ms@[k], p@));
                        assert(mesh_same(copies[k], o.mesh_instances@[k]));
                    }
                    lemma_sum_counts_bounds(mesh_counts(ms@));
                    lemma_mesh_counts_rows(ms@, o.mesh_instances@);
                }
                meshes = ms;
            },
            None => {
                meshes = duplicate_meshes(&c.mesh_instances);
            },
        }
        let fc = crate::dashboard::FleetClusterDashboard {
            cluster_ref: c.cluster_ref.clone(),
            cluster: c.cluster.duplicate(),
            summary,
            mesh_instances: meshes,
            last_updated: c.last_updated.clone(),
        };
        let ghost before = clusters@;
        let ghost sbefore = summaries@;
        summaries.push(summary);
        clusters.push(fc);
        proof {
            assert(clusters@.drop_last() =~= before);
            assert(fleet_summaries(clusters@) =~= fleet_summaries(before).push(summary));
            assert(summaries@ =~= sbefore.push(summary));
            assert(summaries@.drop_last() =~= sbefore);
        }
        i += 1;
    }
    proof {
        assert(olds.take(olds.len() as int) =~= olds);
    }
    let s = aggregate_fleet_summary(summaries.as_slice());
    fleet.clusters = clusters;
    fleet.summary = s;
}

pub proof fn lemma_mesh_counts_rows(meshes: Seq<MeshInstanceDashboard>, olds: Seq<MeshInstanceDashboard>)
    requires
        meshes.len() == olds.len(),
        forall|k: int| 0 <= k < meshes.len() ==> counts_of((#[trigger] meshes[k]).counts, meshes[k].applications@),
        forall|k: int| 0 <= k < meshes.len() ==> (#[trigger] meshes[k]).applications@.len() == olds[k].applications@.len(),
    ensures
        sum_six(mesh_counts(meshes)) == total_rows(olds),
    decreases meshes.len(),
{
    if meshes.len() > 0 {
        let n = meshes.len() - 1;
        assert(mesh_counts(meshes).drop_last() =~= mesh_counts(meshes.drop_last()));
        assert forall|k: int| 0 <= k < meshes.drop_last().len() implies counts_of((#[trigger] meshes.drop_last()[k]).counts, meshes.drop_last()[k].applications@) by {
            assert(meshes.drop_last()[k] == meshes[k]);
        }
        assert forall|k: int| 0 <= k < meshes.drop_last().len() implies (#[trigger] meshes.drop_last()[k]).applications@.len() == olds.drop_last()[k].applications@.len() by {
            assert(meshes.drop_last()[k] == meshes[k]);
            assert(olds.drop_last()[k] == olds[k]);
        }
        lemma_mesh_counts_rows(meshes.drop_last(), olds.drop_last());
        assert(counts_of(meshes[n].counts, meshes[n].applications@));
        lemma_status_counts_partition(meshes[n].applications@);
    }
}

/// Copy of a mesh with equal fields and rows.
pub fn duplicate_mesh(m: &MeshInstanceDashboard) -> (r: MeshInstanceDashboard)
    ensures
        mesh_same(r, *m),
{
    let mut apps: Vec<ApplicationRow> = Vec::new();
    let mut j: usize = 0;
    while j < m.applications.len()
        invariant
            j <= m.applications@.len(),
            apps@ == m.applications@.take(j as int),
        decreases m.applications@.len() - j,
    {
        apps.push(m.applications[j].duplicate());
        j += 1;
        assert(apps@ =~= m.applications@.take(j as int));
    }
    assert(m.applications@.take(m.applications@.len() as int) =~= m.applications@);
    MeshInstanceDashboard {
        revision: m.revision.clone(),
        discovery_label: m.discovery_label.clone(),
        control_plane_namespace: m.control_plane_namespace.clone(),
        version: clone_opt_string(&m.version),
        ambient: m.ambient,
        counts: m.counts,
        applications: apps,
    }
}

/// Copy of a list of meshes, element by element equal.
pub fn duplicate_meshes(v: &Vec<MeshInstanceDashboard>) -> (r: Vec<MeshInstanceDashboard>)
    ensures
        meshes_same(r@, v@),
{
    let mut out: Vec<MeshInstanceDashboard> = Vec::new();
    let mut i: usize = 0;
    while i < v.len()
        invariant
            i <= v@.len(),
            out@.len() == i,
            forall|k: int| 0 <= k < i ==> mesh_same(#[trigger] out@[k], v@[k]),
        decreases v@.len() - i,
    {
        out.push(duplicate_mesh(&v[i]));
        i += 1;
    }
    out
}

/// Weight of a row in the savings estimate: its workloads, at least one, when migrated.
pub open spec fn row_savings_weight(a: ApplicationRow) -> int {
    if a.status == ApplicationMigrationStatus::Migrated {
        if a.workload_count == 0 { 1 } else { a.workload_count as int }
    } else {
        0
    }
}

/// Sum of the savings weights of a list of rows.
pub open spec fn rows_savings_weight(apps: Seq<ApplicationRow>) -> int
    decreases apps.len(),
{
    if apps.len() == 0 {
        0
    } else {
        rows_savings_weight(apps.drop_last()) + row_savings_weight(apps.last())
    }
}

/// Migrated workloads over a list of meshes (each migrated row counts its workloads, at least one).
pub open spec fn migrated_workloads(meshes: Seq<MeshInstanceDashboard>) -> int
    decreases meshes.len(),
{
    if meshes.len() == 0 {
        0
    } else {
        migrated_workloads(meshes.drop_last()) + rows_savings_weight(meshes.last().applications@)
    }
}

/// `x * k`, or the largest `u32` where that does not fit.
pub open spec fn saturating_times(x: int, k: int) -> int {
    if x * k > u32::MAX { u32::MAX as int } else { x * k }
}

pub proof fn lemma_rows_savings_weight_prefix(apps: Seq<ApplicationRow>, k: int)
    requires
        0 <= k <= apps.len(),
    ensures
        0 <= rows_savings_weight(apps.take(k)) <= rows_savings_weight(apps),
    decreases apps.len(),
{
    if k < apps.len() {
        assert(apps.drop_last().take(k) =~= apps.take(k));
        lemma_rows_savings_weight_prefix(apps.drop_last(), k);
    } else {
        assert(apps.take(k) =~= apps);
        if apps.len() > 0 {
            lemma_rows_savings_weight_prefix(apps.drop_last(), apps.len() - 1);
            assert(apps.drop_last().take(apps.len() - 1) =~= apps.drop_last());
        }
    }
}

pub proof fn lemma_migrated_workloads_prefix(meshes: Seq<MeshInstanceDashboard>, k: int)
    requires
        0 <= k <= meshes.len(),
    ensures
        0 <= migrated_workloads(meshes.take(k)) <= migrated_workloads(meshes),
    decreases meshes.len(),
{
    if k < meshes.len() {
        assert(meshes.drop_last().take(k) =~= meshes.take(k));
        lemma_migrated_workloads_prefix(meshes.drop_last(), k);
        lemma_rows_savings_weight_prefix(meshes.last().applications@, 0);
    } else {
        assert(meshes.take(k) =~= meshes);
        if meshes.len() > 0 {
            lemma_migrated_workloads_prefix(meshes.drop_last(), meshes.len() - 1);
            assert(meshes.drop_last().take(meshes.len() - 1) =~= meshes.drop_last());
            lemma_rows_savings_weight_prefix(meshes.last().applications@, 0);
        }
    }
}

fn saturating_mul_u32(x: u32, k: u32) -> (r: u32)
    ensures
        r == saturating_times(x as int, k as int),
{
    match x.checked_mul(k) {
        Some(v) => v,
        None => u32::MAX,
    }
}

/// Estimated resource savings from workloads on ambient dataplane (dashboard **Migrated**):
/// one sidecar, 128 MiB and 100 millicores per migrated workload.
pub fn compute_migration_savings_from_dashboard(meshes: &[MeshInstanceDashboard]) -> (r: MigrationSavingsSummary)
    requires
        migrated_workloads(meshes@) <= u32::MAX,
    ensures
        r.migrated_workloads == migrated_workloads(meshes@),
        r.estimated_sidecar_proxies_removed == migrated_workloads(meshes@),
        r.estimated_memory_mib_saved == saturating_times(migrated_workloads(meshes@), 128),
        r.estimated_cpu_millicores_saved == saturating_times(migrated_workloads(meshes@), 100),
{
    let mut total: u32 = 0;
    let mut i: usize = 0;
    while i < meshes.len()
        invariant
            i <= meshes@.len(),
            migrated_workloads(meshes@) <= u32::MAX,
            total == migrated_workloads(meshes@.take(i as int)),
        decreases meshes@.len() - i,
    {
        let apps = &meshes[i].applications;
        let ghost base = total as int;
        proof {
            assert(meshes@.take(i + 1).drop_last() =~= meshes@.take(i as int));
            lemma_migrated_workloads_prefix(meshes@, i + 1);
        }
        let mut j: usize = 0;
        while j < apps.len()
            invariant
                j <= apps@.len(),
                base + rows_savings_weight(apps@) <= u32::MAX,
                total == base + rows_savings_weight(apps@.take(j as int)),
            decreases apps@.len() - j,
        {
            proof {
                assert(apps@.take(j + 1).drop_last() =~= apps@.take(j as int));
                lemma_rows_savings_weight_prefix(apps@, j + 1);
            }
            let a = &apps[j];
            if a.status == ApplicationMigrationStatus::Migrated {
                if a.workload_count == 0 {
                    total = total + 1;
                } else {
                    total = total + a.workload_count;
                }
            }
            j += 1;
        }
        assert(apps@.take(apps@.len() as int) =~= apps@);
        i += 1;
    }
    assert(meshes@.take(meshes@.len() as int) =~= meshes@);
    MigrationSavingsSummary {
        migrated_workloads: total,
        estimated_sidecar_proxies_removed: total,
        estimated_memory_mib_saved: saturating_mul_u32(total, 128),
        estimated_cpu_millicores_saved: saturating_mul_u32(total, 100),
    }
}

/// Whether a namespace belongs to a mesh: the mesh's enrollment selects it, or its revision or
/// discovery label names the mesh. A namespace without labels belongs to none.
pub open spec fn spec_belongs_to_mesh(
    labels: Option<Map<Seq<char>, Seq<char>>>,
    mesh: MeshInstance,
    enrolled_on_mesh: bool,
) -> bool {
    match labels {
        None => false,
        Some(m) => enrolled_on_mesh || label_is(m, "istio.io/rev"@, mesh.revision@) || label_is(
            m,
            "istio-discovery"@,
            mesh.discovery_label@,
        ),
    }
}

/// Labels of an optional label set.
pub open spec fn opt_labels(labels: Option<&Labels>) -> Option<Map<Seq<char>, Seq<char>>> {
    match labels {
        Some(l) => Some(l@),
        None => None,
    }
}

/// Whether a namespace belongs to a mesh. `enrolled_on_mesh` says whether the mesh's
/// enrollment configuration selects the namespace's labels.
pub fn namespace_belongs_to_mesh(labels: Option<&Labels>, mesh: &MeshInstance, enrolled_on_mesh: bool) -> (r: bool)
    ensures
        r == spec_belongs_to_mesh(opt_labels(labels), *mesh, enrolled_on_mesh),
{
    let labels = match labels {
        Some(l) => l,
        None => return false,
    };
    if enrolled_on_mesh {
        return true;
    }
    if labels.has_value("istio.io/rev", mesh.revision.as_str()) {
        return true;
    }
    if labels.has_value("istio-discovery", mesh.discovery_label.as_str()) {
        return true;
    }
    false
}

/// The namespace labels, if any, carry the ambient dataplane label.
pub fn is_migrated(labels: Option<&Labels>) -> (r: bool)
    ensures
        r == (match opt_labels(labels) {
            Some(m) => spec_is_migrated(m),
            None => false,
        }),
{
    match labels {
        Some(l) => namespace_is_migrated(l),
        None => false,
    }
}

/// What the assessments say of one namespace.
#[derive(Debug)]
pub struct AssessmentNsInfo {
    pub namespace: String,
    /// Name of the assessment resource.
    pub name: String,
    pub findings: Vec<Finding>,
    pub has_blocker: bool,
    pub scanned: bool,
}

/// Assessment information per namespace; a later entry for a namespace replaces an earlier one.
#[derive(Debug)]
pub struct AssessmentIndex {
    pub entries: Vec<AssessmentNsInfo>,
}

/// Index of the last entry for a namespace.
pub open spec fn last_info_index(entries: Seq<AssessmentNsInfo>, ns: Seq<char>) -> Option<int>
    decreases entries.len(),
{
    if entries.len() == 0 {
        None
    } else if entries.last().namespace@ == ns {
        Some(entries.len() - 1)
    } else {
        last_info_index(entries.drop_last(), ns)
    }
}

pub proof fn lemma_last_info_index(entries: Seq<AssessmentNsInfo>, ns: Seq<char>)
    ensures
        match last_info_index(entries, ns) {
            Some(i) => 0 <= i < entries.len() && entries[i].namespace@ == ns && forall|j: int|
                i < j < entries.len() ==> entries[j].namespace@ != ns,
            None => forall|j: int| 0 <= j < entries.len() ==> entries[j].namespace@ != ns,
        },
    decreases entries.len(),
{
    if entries.len() > 0 {
        lemma_last_info_index(entries.drop_last(), ns);
        assert forall|j: int| 0 <= j < entries.len() - 1 implies entries.drop_last()[j] == entries[j] by {}
    }
}

impl AssessmentIndex {
    /// Position of the entry for a namespace.
    pub fn find(&self, ns: &str) -> (r: Option<usize>)
        ensures
            match r {
                Some(i) => last_info_index(self.entries@, ns@) == Some(i as int),
                None => last_info_index(self.entries@, ns@) is None,
            },
    {
        let ghost es = self.entries@;
        let mut i: usize = self.entries.len();
        assert(es.take(es.len() as int) =~= es);
        while i > 0
            invariant
                es == self.entries@,
                i <= es.len(),
                last_info_index(es, ns@) == last_info_index(es.take(i as int), ns@),
            decreases i,
        {
            assert(es.take(i as int).drop_last() =~= es.take(i - 1));
            if str_eq(self.entries[i - 1].namespace.as_str(), ns) {
                return Some(i - 1);
            }
            i -= 1;
        }
        None
    }
}

/// Whether a list of namespace names holds a name.
pub open spec fn names_contain(v: Seq<String>, ns: Seq<char>) -> bool {
    exists|i: int| 0 <= i < v.len() && v[i]@ == ns
}

/// Status of an application namespace on a mesh: the phase of a rollout targeting it, then
/// the ambient label on an ambient mesh, then the assessments and the mesh inventories.
pub open spec fn spec_derive_status(
    ns: Seq<char>,
    labels: Option<Map<Seq<char>, Seq<char>>>,
    mesh_ambient: bool,
    assessments: Seq<AssessmentNsInfo>,
    rollouts: Map<Seq<char>, Seq<char>>,
    inventories: Seq<String>,
) -> ApplicationMigrationStatus {
    let migrated = match labels {
        Some(m) => spec_is_migrated(m),
        None => false,
    };
    if rollouts.contains_key(ns) {
        let phase = rollouts[ns];
        if phase == "Failed"@ || phase == "RolledBack"@ {
            ApplicationMigrationStatus::Failed
        } else if phase == "Completed"@ {
            if mesh_ambient && migrated {
                ApplicationMigrationStatus::Migrated
            } else {
                ApplicationMigrationStatus::Scanned
            }
        } else {
            ApplicationMigrationStatus::Processing
        }
    } else if mesh_ambient && migrated {
        ApplicationMigrationStatus::Migrated
    } else {
        match last_info_index(assessments, ns) {
            Some(i) if assessments[i].has_blocker => ApplicationMigrationStatus::Blocker,
            Some(i) if assessments[i].scanned => ApplicationMigrationStatus::Scanned,
            _ => if names_contain(inventories, ns) {
                ApplicationMigrationStatus::Scanned
            } else {
                ApplicationMigrationStatus::NotScanned
            },
        }
    }
}

fn names_contain_exec(v: &Vec<String>, ns: &str) -> (r: bool)
    ensures
        r == names_contain(v@, ns@),
{
    let mut i: usize = 0;
    while i < v.len()
        invariant
            i <= v@.len(),
            forall|j: int| 0 <= j < i ==> v@[j]@ != ns@,
        decreases v@.len() - i,
    {
        if str_eq(v[i].as_str(), ns) {
            return true;
        }
        i += 1;
    }
    false
}

/// Status of an application namespace on a mesh.
pub fn derive_status(
    ns: &str,
    labels: Option<&Labels>,
    mesh: &MeshInstance,
    assessments: &AssessmentIndex,
    rollouts: &Labels,
    inventories: &Vec<String>,
) -> (r: ApplicationMigrationStatus)
    ensures
        r == spec_derive_status(ns@, opt_labels(labels), mesh.ambient, assessments.entries@, rollouts@, inventories@),
{
    match rollouts.get(ns) {
        Some(phase) => {
            let p = phase.as_str();
            if str_eq(p, "Failed") || str_eq(p, "RolledBack") {
                return ApplicationMigrationStatus::Failed;
            }
            if str_eq(p, "Completed") {
                if mesh.ambient && is_migrated(labels) {
                    return ApplicationMigrationStatus::Migrated;
                }
                return ApplicationMigrationStatus::Scanned;
            }
            return ApplicationMigrationStatus::Processing;
        },
        None => {},
    }
    if mesh.ambient && is_migrated(labels) {
        return ApplicationMigrationStatus::Migrated;
    }
    proof {
        lemma_last_info_index(assessments.entries@, ns@);
    }
    match assessments.find(ns) {
        Some(i) => {
            let info = &assessments.entries[i];
            if info.has_blocker {
                return ApplicationMigrationStatus::Blocker;
            }
            if info.scanned {
                return ApplicationMigrationStatus::Scanned;
            }
        },
        None => {},
    }
    if names_contain_exec(inventories, ns) {
        return ApplicationMigrationStatus::Scanned;
    }
    ApplicationMigrationStatus::NotScanned
}


/// Row `n` is row `o` of a mesh (ambient or not) after the phases are applied: a row whose
/// namespace has a phase takes it, with the status that phase gives; any other row is left
/// exactly as it was.
pub open spec fn row_takes_phase(o: ApplicationRow, n: ApplicationRow, phases: Map<Seq<char>, Seq<char>>, mesh_ambient: bool) -> bool {
    if phases.contains_key(o.namespace@) {
        &&& n.namespace == o.namespace
        &&& n.dataplane_mode == o.dataplane_mode
        &&& n.rollout_phase matches Some(p) && p@ == phases[o.namespace@]
        &&& n.status == spec_status_from_phase(phases[o.namespace@], mesh_ambient, n.dataplane_mode@)
    } else {
        n == o
    }
}

/// Per application and per mesh, what overlaying rollout phases on a list of meshes gives:
/// every row takes the phase of its namespace (status recomputed) or stays as it was; each
/// mesh keeps its rows in order and its counts tally their statuses, with the row count as
/// total; the summary is the per-status sum of the mesh counts, with the sum of the six as
/// total.
pub proof fn law_overlay_per_application(
    old_meshes: Seq<MeshInstanceDashboard>,
    new_meshes: Seq<MeshInstanceDashboard>,
    summary: StatusCounts,
    phases: Map<Seq<char>, Seq<char>>,
)
    requires
        new_meshes.len() == old_meshes.len(),
        forall|k: int| 0 <= k < old_meshes.len() ==> mesh_overlaid(#[trigger] old_meshes[k], new_meshes[k], phases),
        summary_of(summary, mesh_counts(new_meshes)),
    ensures
        forall|k: int, j: int|
            0 <= k < new_meshes.len() && 0 <= j < old_meshes[k].applications@.len() ==> #[trigger] row_takes_phase(
                old_meshes[k].applications@[j],
                new_meshes[k].applications@[j],
                phases,
                new_meshes[k].ambient,
            ),
        forall|k: int|
            0 <= k < new_meshes.len() ==> {
                &&& (#[trigger] new_meshes[k]).applications@.len() == old_meshes[k].applications@.len()
                &&& new_meshes[k].ambient == old_meshes[k].ambient
                &&& counts_of(new_meshes[k].counts, new_meshes[k].applications@)
            },
        summary.total == six_sum(summary),
        summary_of(summary, mesh_counts(new_meshes)),
{
    assert forall|k: int, j: int|
        0 <= k < new_meshes.len() && 0 <= j < old_meshes[k].applications@.len() implies #[trigger] row_takes_phase(
            old_meshes[k].applications@[j],
            new_meshes[k].applications@[j],
            phases,
            new_meshes[k].ambient,
        ) by {
        assert(mesh_overlaid(old_meshes[k], new_meshes[k], phases));
        assert(row_overlaid(old_meshes[k].applications@[j], new_meshes[k].applications@[j], phases, old_meshes[k].ambient));
    }
    assert forall|k: int| 0 <= k < new_meshes.len() implies {
        &&& (#[trigger] new_meshes[k]).applications@.len() == old_meshes[k].applications@.len()
        &&& new_meshes[k].ambient == old_meshes[k].ambient
        &&& counts_of(new_meshes[k].counts, new_meshes[k].applications@)
    } by {
        assert(mesh_overlaid(old_meshes[k], new_meshes[k], phases));
    }
}

/// Per cluster, what overlaying rollout phases on a fleet gives: clusters keep their order
/// and identity; a cluster with phases has every row take the phase of its namespace or
/// stay as it was, its mesh counts re-tallied and its summary re-aggregated (also when its
/// phases are empty); a cluster without phases keeps its meshes and summary; the fleet
/// summary is the per-status sum of the cluster summaries, with the sum of the six as total.
pub proof fn law_fleet_overlay_per_cluster(
    old_clusters: Seq<crate::dashboard::FleetClusterDashboard>,
    new_clusters: Seq<crate::dashboard::FleetClusterDashboard>,
    summary: StatusCounts,
    entries: Seq<(String, Labels)>,
)
    requires
        new_clusters.len() == old_clusters.len(),
        forall|i: int|
            0 <= i < old_clusters.len() ==> fleet_cluster_overlaid(
                #[trigger] old_clusters[i],
                new_clusters[i],
                cluster_phases(entries, old_clusters[i].cluster_ref@),
            ),
        summary_of(summary, fleet_summaries(new_clusters)),
    ensures
        forall|i: int|
            0 <= i < new_clusters.len() ==> {
                let o = old_clusters[i];
                let n = #[trigger] new_clusters[i];
                &&& n.cluster_ref == o.cluster_ref
                &&& n.cluster == o.cluster
                &&& n.last_updated == o.last_updated
                &&& match cluster_phases(entries, o.cluster_ref@) {
                    Some(p) => {
                        &&& n.mesh_instances@.len() == o.mesh_instances@.len()
                        &&& forall|k: int, j: int|
                            0 <= k < n.mesh_instances@.len() && 0 <= j < o.mesh_instances@[k].applications@.len()
                                ==> #[trigger] row_takes_phase(
                                o.mesh_instances@[k].applications@[j],
                                n.mesh_instances@[k].applications@[j],
                                p,
                                n.mesh_instances@[k].ambient,
                            )
                        &&& forall|k: int|
                            0 <= k < n.mesh_instances@.len() ==> counts_of(
                                (#[trigger] n.mesh_instances@[k]).counts,
                                n.mesh_instances@[k].applications@,
                            )
                        &&& summary_of(n.summary, mesh_counts(n.mesh_instances@))
                    },
                    None => meshes_same(n.mesh_instances@, o.mesh_instances@) && n.summary == o.summary,
                }
            },
        summary.total == six_sum(summary),
        summary_of(summary, fleet_summaries(new_clusters)),
{
    assert forall|i: int| 0 <= i < new_clusters.len() implies {
        let o = old_clusters[i];
        let n = #[trigger] new_clusters[i];
        &&& n.cluster_ref == o.cluster_ref
        &&& n.cluster == o.cluster
        &&& n.last_updated == o.last_updated
        &&& match cluster_phases(entries, o.cluster_ref@) {
            Some(p) => {
                &&& n.mesh_instances@.len() == o.mesh_instances@.len()
                &&& forall|k: int, j: int|
                    0 <= k < n.mesh_instances@.len() && 0 <= j < o.mesh_instances@[k].applications@.len()
                        ==> #[trigger] row_takes_phase(
                        o.mesh_instances@[k].applications@[j],
                        n.mesh_instances@[k].applications@[j],
                        p,
                        n.mesh_instances@[k].ambient,
                    )
                &&& forall|k: int|
                    0 <= k < n.mesh_instances@.len() ==> counts_of(
                        (#[trigger] n.mesh_instances@[k]).counts,
                        n.mesh_instances@[k].applications@,
                    )
                &&& summary_of(n.summary, mesh_counts(n.mesh_instances@))
            },
            None => meshes_same(n.mesh_instances@, o.mesh_instances@) && n.summary == o.summary,
        }
    } by {
        let o = old_clusters[i];
        let n = new_clusters[i];
        assert(fleet_cluster_overlaid(o, n, cluster_phases(entries, o.cluster_ref@)));
        match cluster_phases(entries, o.cluster_ref@) {
            Some(p) => {
                law_overlay_per_application(o.mesh_instances@, n.mesh_instances@, n.summary, p);
            },
            None => {},
        }
    }
}


proof fn lemma_phase_texts_differ()
    ensures
        "Running"@ != "Failed"@ && "Running"@ != "RolledBack"@ && "Running"@ != "Completed"@,
        "Pending"@ != "Failed"@ && "Pending"@ != "RolledBack"@ && "Pending"@ != "Completed"@,
        "AwaitingApproval"@ != "Failed"@ && "AwaitingApproval"@ != "RolledBack"@ && "AwaitingApproval"@ != "Completed"@,
        "Completed"@ != "Failed"@ && "Completed"@ != "RolledBack"@,
{
    reveal_strlit("Running");
    reveal_strlit("Pending");
    reveal_strlit("AwaitingApproval");
    reveal_strlit("Failed");
    reveal_strlit("RolledBack");
    reveal_strlit("Completed");
    assert("Running"@.len() == 7 && "Pending"@.len() == 7 && "AwaitingApproval"@.len() == 16);
    assert("Failed"@.len() == 6 && "RolledBack"@.len() == 10 && "Completed"@.len() == 9);
}

/// What a rollout phase makes of an application, on the dashboard overlay: a failed or
/// rolled-back rollout marks it failed; a running, pending or approval-awaiting one marks it
/// in progress; a completed one marks it migrated exactly when its mesh is ambient and its
/// dataplane mode is `ambient`, and scanned otherwise.
pub proof fn law_phase_status(phase: Seq<char>, mesh_ambient: bool, dataplane_mode: Seq<char>)
    ensures
        phase == "Failed"@ || phase == "RolledBack"@ ==> spec_status_from_phase(phase, mesh_ambient, dataplane_mode)
            == ApplicationMigrationStatus::Failed,
        phase == "Running"@ || phase == "Pending"@ || phase == "AwaitingApproval"@ ==> spec_status_from_phase(
            phase,
            mesh_ambient,
            dataplane_mode,
        ) == ApplicationMigrationStatus::Processing,
        phase == "Completed"@ ==> spec_status_from_phase(phase, mesh_ambient, dataplane_mode) == if mesh_ambient
            && dataplane_mode == "ambient"@ {
            ApplicationMigrationStatus::Migrated
        } else {
            ApplicationMigrationStatus::Scanned
        },
{
    lemma_phase_texts_differ();
}

/// The status of an application whose namespace a rollout targets follows the rollout's
/// phase alone, as the overlay gives it: failed or rolled back is failed, whatever was
/// assessed; running, pending or awaiting approval is in progress; completed is migrated
/// exactly when the mesh is ambient and the namespace carries the ambient dataplane label,
/// and scanned otherwise.
pub proof fn law_rollout_phase_decides_status(
    ns: Seq<char>,
    labels: Option<Map<Seq<char>, Seq<char>>>,
    mesh_ambient: bool,
    assessments: Seq<AssessmentNsInfo>,
    rollouts: Map<Seq<char>, Seq<char>>,
    inventories: Seq<String>,
)
    ensures
        rollouts.contains_key(ns) && (rollouts[ns] == "Failed"@ || rollouts[ns] == "RolledBack"@) ==> spec_derive_status(
            ns,
            labels,
            mesh_ambient,
            assessments,
            rollouts,
            inventories,
        ) == ApplicationMigrationStatus::Failed,
        rollouts.contains_key(ns) && (rollouts[ns] == "Running"@ || rollouts[ns] == "Pending"@ || rollouts[ns]
            == "AwaitingApproval"@) ==> spec_derive_status(ns, labels, mesh_ambient, assessments, rollouts, inventories)
            == ApplicationMigrationStatus::Processing,
        rollouts.contains_key(ns) && rollouts[ns] == "Completed"@ ==> spec_derive_status(
            ns,
            labels,
            mesh_ambient,
            assessments,
            rollouts,
            inventories,
        ) == if mesh_ambient && (labels matches Some(m) && m.contains_key("istio.io/dataplane-mode"@)
            && m["istio.io/dataplane-mode"@] == "ambient"@) {
            ApplicationMigrationStatus::Migrated
        } else {
            ApplicationMigrationStatus::Scanned
        },
        rollouts.contains_key(ns) ==> spec_derive_status(ns, labels, mesh_ambient, assessments, rollouts, inventories)
            == spec_status_from_phase(
            rollouts[ns],
            mesh_ambient,
            if labels matches Some(m) && m.contains_key("istio.io/dataplane-mode"@) && m["istio.io/dataplane-mode"@]
                == "ambient"@ {
                "ambient"@
            } else {
                "sidecar"@
            },
        ),
{
    lemma_phase_texts_differ();
    reveal_strlit("ambient");
    reveal_strlit("sidecar");
    assert("sidecar"@[0] != "ambient"@[0]);
}

} // verus!
