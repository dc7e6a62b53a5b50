//! Dashboard of one cluster, built from a snapshot of its namespaces, meshes, assessments,
//! rollouts and inventories.

use vstd::prelude::*;

use crate::compute::{counts_of, derive_status, mesh_counts, migrated_workloads, opt_labels, last_info_index, lemma_last_info_index, lemma_status_counts_partition, namespace_belongs_to_mesh, saturating_times, spec_belongs_to_mesh, spec_derive_status, status_count, summary_of, aggregate_fleet_summary, increment_count, six_sum, sum_six, rows_savings_weight, lemma_rows_savings_weight_prefix, lemma_migrated_workloads_prefix, AssessmentIndex, AssessmentNsInfo};
use crate::dashboard::{
    ApplicationMigrationStatus, ApplicationRow, ApplicationRowView, ClusterDashboard, DashboardResponse,
    MeshInstanceDashboard, MigrationSavingsSummary, StatusCounts,
};
use crate::dataplane::{derive_dataplane_mode, mode_text, spec_dataplane_mode, DataplaneMode};
use crate::labels::Labels;
use crate::model::{clone_opt_string, count_severity, lemma_count_severity_bound, Finding, FindingSeverity, MeshInstance};
use crate::sorting::{keys_view, pair_lt, stable_order, stable_sorted};
use crate::text::owned;

verus! {

/// Application identity of a namespace, from its pods.
#[derive(Debug)]
pub struct ApplicationIdentity {
    /// Display name from pod labels.
    pub application_name: String,
    /// Pods of user applications (mesh proxies and jobs excluded).
    pub app_pod_count: u32,
    /// Workload names that make up the application.
    pub workload_components: Vec<String>,
    /// The pods are mesh infrastructure (ztunnel, istiod, gateways).
    pub is_mesh_infrastructure: bool,
}

/// What the cluster says of one namespace.
#[derive(Debug)]
pub struct NamespaceSnapshot {
    pub name: String,
    pub labels: Option<Labels>,
    /// The namespace may hold user applications (not a system namespace).
    pub is_application_namespace: bool,
    /// The namespace hosts an ambient control plane.
    pub is_ambient_control_plane_namespace: bool,
    pub identity: Option<ApplicationIdentity>,
    /// For each mesh of the snapshot, in order: whether its enrollment selects the namespace.
    pub enrolled_on_mesh: Vec<bool>,
}

/// Everything the dashboard of one cluster is computed from.
#[derive(Debug)]
pub struct ClusterSnapshot {
    pub cluster_ref: String,
    pub cluster_name: String,
    pub is_openshift: bool,
    /// Text of the mesh flavor.
    pub mesh_flavor: String,
    pub istio_version: Option<String>,
    pub meshes: Vec<MeshInstance>,
    pub namespaces: Vec<NamespaceSnapshot>,
    pub assessments: AssessmentIndex,
    /// Phase of the rollout targeting each namespace.
    pub rollouts: Labels,
    /// Namespaces with a mesh inventory.
    pub inventories: Vec<String>,
}

/// Labels of a namespace, if it has any.
pub open spec fn ns_labels(n: NamespaceSnapshot) -> Option<Map<Seq<char>, Seq<char>>> {
    match n.labels {
        Some(l) => Some(l@),
        None => None,
    }
}

/// Whether mesh `k`'s enrollment selects the namespace.
pub open spec fn enrolled_on(n: NamespaceSnapshot, k: int) -> bool {
    0 <= k < n.enrolled_on_mesh@.len() && n.enrolled_on_mesh@[k]
}

/// Whether the namespace is an application row of mesh `k`.
pub open spec fn shows_on_mesh(n: NamespaceSnapshot, mesh: MeshInstance, k: int) -> bool {
    &&& n.is_application_namespace
    &&& !n.is_ambient_control_plane_namespace
    &&& spec_belongs_to_mesh(ns_labels(n), mesh, enrolled_on(n, k))
    &&& n.identity is Some
    &&& n.identity->0.app_pod_count != 0
    &&& !n.identity->0.is_mesh_infrastructure
}

/// The row of an application namespace on mesh `k`.
pub open spec fn expected_row(
    n: NamespaceSnapshot,
    mesh: MeshInstance,
    k: int,
    assessments: Seq<AssessmentNsInfo>,
    rollouts: Map<Seq<char>, Seq<char>>,
    inventories: Seq<String>,
) -> ApplicationRowView {
    let labels = match n.labels {
        Some(l) => l@,
        None => Map::empty(),
    };
    let mode = spec_dataplane_mode(labels, Some(enrolled_on(n, k)));
    let info = last_info_index(assessments, n.name@);
    ApplicationRowView {
        application_name: n.identity->0.application_name@,
        namespace: n.name@,
        status: spec_derive_status(n.name@, ns_labels(n), mesh.ambient, assessments, rollouts, inventories),
        mesh_revision: mesh.revision@,
        discovery_label: mesh.discovery_label@,
        dataplane_mode: mode_text(mode),
        ambient_dataplane: mode == DataplaneMode::Ambient,
        blocker_count: match info {
            Some(i) => count_severity(assessments[i].findings@, FindingSeverity::Blocker) as usize,
            None => 0,
        },
        workload_count: n.identity->0.app_pod_count,
        rollout_phase: if rollouts.contains_key(n.name@) {
            Some(rollouts[n.name@])
        } else {
            None
        },
        assessment_ref: match info {
            Some(i) => Some(assessments[i].name@),
            None => None,
        },
    }
}

/// Rows of mesh `k`, in namespace order.
pub open spec fn expected_rows(
    nss: Seq<NamespaceSnapshot>,
    mesh: MeshInstance,
    k: int,
    assessments: Seq<AssessmentNsInfo>,
    rollouts: Map<Seq<char>, Seq<char>>,
    inventories: Seq<String>,
) -> Seq<ApplicationRowView>
    decreases nss.len(),
{
    if nss.len() == 0 {
        Seq::empty()
    } else {
        let prev = expected_rows(nss.drop_last(), mesh, k, assessments, rollouts, inventories);
        if shows_on_mesh(nss.last(), mesh, k) {
            prev.push(expected_row(nss.last(), mesh, k, assessments, rollouts, inventories))
        } else {
            prev
        }
    }
}

/// Sort key of a row: application name, then namespace.
pub open spec fn row_keys(rows: Seq<ApplicationRowView>) -> Seq<(Seq<char>, Seq<char>)> {
    rows.map_values(|r: ApplicationRowView| (r.application_name, r.namespace))
}

/// Views of a list of rows.
pub open spec fn rows_view(rows: Seq<ApplicationRow>) -> Seq<ApplicationRowView> {
    rows.map_values(|r: ApplicationRow| r@)
}

/// `out` is `rows` in stable order of their keys.
pub open spec fn sorted_rows(out: Seq<ApplicationRowView>, rows: Seq<ApplicationRowView>) -> bool {
    exists|ord: Seq<usize>|
        #![trigger stable_sorted(row_keys(rows), ord)]
        stable_sorted(row_keys(rows), ord) && out.len() == rows.len() && forall|i: int|
            0 <= i < out.len() ==> #[trigger] out[i] == rows[ord[i] as int]
}

/// `d` is the dashboard of mesh `k`: its rows sorted and counted.
pub open spec fn mesh_built(d: MeshInstanceDashboard, mesh: MeshInstance, k: int, s: ClusterSnapshot) -> bool {
    &&& d.revision == mesh.revision
    &&& d.discovery_label == mesh.discovery_label
    &&& d.control_plane_namespace == mesh.control_plane_namespace
    &&& d.version == mesh.version
    &&& d.ambient == mesh.ambient
    &&& sorted_rows(
        rows_view(d.applications@),
        expected_rows(s.namespaces@, mesh, k, s.assessments.entries@, s.rollouts@, s.inventories@),
    )
    &&& counts_of(d.counts, d.applications@)
}

/// Sort key of a mesh: ambient meshes first, then by discovery label.
pub open spec fn mesh_key(m: MeshInstance) -> (Seq<char>, Seq<char>) {
    (if m.ambient { "0"@ } else { "1"@ }, m.discovery_label@)
}

/// Sort keys of a list of meshes.
pub open spec fn mesh_keys(meshes: Seq<MeshInstance>) -> Seq<(Seq<char>, Seq<char>)> {
    meshes.map_values(|m: MeshInstance| mesh_key(m))
}

/// Number of ambient meshes.
pub open spec fn ambient_count(meshes: Seq<MeshInstance>) -> nat
    decreases meshes.len(),
{
    if meshes.len() == 0 {
        0
    } else {
        ambient_count(meshes.drop_last()) + if meshes.last().ambient { 1nat } else { 0nat }
    }
}

/// The dashboard of a cluster snapshot.
pub open spec fn dashboard_built(d: DashboardResponse, s: ClusterSnapshot, last_updated: Seq<char>) -> bool {
    &&& d.cluster_ref == s.cluster_ref
    &&& d.cluster.name == s.cluster_name
    &&& d.cluster.platform@ == (if s.is_openshift { "OpenShift"@ } else { "Kubernetes"@ })
    &&& d.cluster.mesh_flavor == s.mesh_flavor
    &&& d.cluster.istio_version == s.istio_version
    &&& d.cluster.mesh_instance_count == s.meshes@.len()
    &&& d.cluster.ambient_mesh_count == ambient_count(s.meshes@)
    &&& exists|ord: Seq<usize>|
        #![trigger stable_sorted(mesh_keys(s.meshes@), ord)]
        stable_sorted(mesh_keys(s.meshes@), ord) && d.mesh_instances@.len() == s.meshes@.len()
            && forall|i: int|
            0 <= i < d.mesh_instances@.len() ==> mesh_built(
                #[trigger] d.mesh_instances@[i],
                s.meshes@[ord[i] as int],
                ord[i] as int,
                s,
            )
    &&& summary_of(d.summary, mesh_counts(d.mesh_instances@))
    &&& d.migration_savings == if migrated_workloads(d.mesh_instances@) <= u32::MAX {
        Some(
            MigrationSavingsSummary {
                migrated_workloads: migrated_workloads(d.mesh_instances@) as u32,
                estimated_sidecar_proxies_removed: migrated_workloads(d.mesh_instances@) as u32,
                estimated_memory_mib_saved: saturating_times(migrated_workloads(d.mesh_instances@), 128) as u32,
                estimated_cpu_millicores_saved: saturating_times(migrated_workloads(d.mesh_instances@), 100) as u32,
            },
        )
    } else {
        None
    }
    &&& d.last_updated@ == last_updated
    &&& d.connection_namespace is None
    &&& d.connection_name is None
    &&& d.reachable is None
    &&& d.is_hub is None
}

fn count_blockers(findings: &Vec<Finding>) -> (r: usize)
    ensures
        r == count_severity(findings@, FindingSeverity::Blocker),
{
    let mut n: usize = 0;
    let mut i: usize = 0;
    while i < findings.len()
        invariant
            i <= findings@.len(),
            n == count_severity(findings@.take(i as int), FindingSeverity::Blocker),
        decreases findings@.len() - i,
    {
        assert(findings@.take(i + 1).drop_last() =~= findings@.take(i as int));
        proof {
            lemma_count_severity_bound(findings@.take(i as int), FindingSeverity::Blocker);
        }
        if findings[i].severity == FindingSeverity::Blocker {
            n += 1;
        }
        i += 1;
    }
    assert(findings@.take(findings@.len() as int) =~= findings@);
    n
}

fn enrolled_on_exec(n: &NamespaceSnapshot, k: usize) -> (r: bool)
    ensures
        r == enrolled_on(*n, k as int),
{
    k < n.enrolled_on_mesh.len() && n.enrolled_on_mesh[k]
}

fn shows_on_mesh_exec(n: &NamespaceSnapshot, mesh: &MeshInstance, k: usize) -> (r: bool)
    ensures
        r == shows_on_mesh(*n, *mesh, k as int),
{
    if !n.is_application_namespace || n.is_ambient_control_plane_namespace {
        return false;
    }
    let labels = match &n.labels {
        Some(l) => Some(l),
        None => None,
    };
    assert(opt_labels(labels) == ns_labels(*n));
    if !namespace_belongs_to_mesh(labels, mesh, enrolled_on_exec(n, k)) {
        return false;
    }
    match &n.identity {
        Some(id) => id.app_pod_count != 0 && !id.is_mesh_infrastructure,
        None => false,
    }
}

fn application_row(
    n: &NamespaceSnapshot,
    mesh: &MeshInstance,
    k: usize,
    assessments: &AssessmentIndex,
    rollouts: &Labels,
    inventories: &Vec<String>,
) -> (r: ApplicationRow)
    requires
        shows_on_mesh(*n, *mesh, k as int),
    ensures
        r@ == expected_row(*n, *mesh, k as int, assessments.entries@, rollouts@, inventories@),
{
    let labels = match &n.labels {
        Some(l) => Some(l),
        None => None,
    };
    assert(opt_labels(labels) == ns_labels(*n));
    let status = derive_status(n.name.as_str(), labels, mesh, assessments, rollouts, inventories);
    let empty = Labels::new();
    let label_map = match &n.labels {
        Some(l) => l,
        None => &empty,
    };
    let dataplane = derive_dataplane_mode(label_map, Some(enrolled_on_exec(n, k)));
    proof {
        lemma_last_info_index(assessments.entries@, n.name@);
    }
    let (blocker_count, assessment_ref) = match assessments.find(n.name.as_str()) {
        Some(i) => (count_blockers(&assessments.entries[i].findings), Some(assessments.entries[i].name.clone())),
        None => (0, None),
    };
    let id = match &n.identity {
        Some(id) => id,
        None => {
            assert(false);
            return ApplicationRow {
                application_name: String::new(),
                namespace: String::new(),
                status,
                mesh_revision: String::new(),
                discovery_label: String::new(),
                dataplane_mode: String::new(),
                ambient_dataplane: false,
                blocker_count: 0,
                workload_count: 0,
                rollout_phase: None,
                assessment_ref: None,
            };
        },
    };
    let rollout_phase = match rollouts.get(n.name.as_str()) {
        Some(p) => Some(p.clone()),
        None => None,
    };
    ApplicationRow {
        application_name: id.application_name.clone(),
        namespace: n.name.clone(),
        status,
        mesh_revision: mesh.revision.clone(),
        discovery_label: mesh.discovery_label.clone(),
        dataplane_mode: owned(dataplane.as_str()),
        ambient_dataplane: dataplane.is_ambient(),
        blocker_count,
        workload_count: id.app_pod_count,
        rollout_phase,
        assessment_ref,
    }
}

/// Counts of a list of rows.
pub fn count_statuses(apps: &Vec<ApplicationRow>) -> (r: StatusCounts)
    ensures
        counts_of(r, apps@),
{
    let mut counts = StatusCounts::zero();
    let mut j: usize = 0;
    while j < apps.len()
        invariant
            j <= apps@.len(),
            counts.total == 0,
            counts.migrated == status_count(apps@.take(j as int), ApplicationMigrationStatus::Migrated),
            counts.processing == status_count(apps@.take(j as int), ApplicationMigrationStatus::Processing),
            counts.blocker == status_count(apps@.take(j as int), ApplicationMigrationStatus::Blocker),
            counts.failed == status_count(apps@.take(j as int), ApplicationMigrationStatus::Failed),
            counts.scanned == status_count(apps@.take(j as int), ApplicationMigrationStatus::Scanned),
            counts.not_scanned == status_count(apps@.take(j as int), ApplicationMigrationStatus::NotScanned),
        decreases apps@.len() - j,
    {
        proof {
            lemma_status_counts_partition(apps@.take(j as int));
            assert(apps@.take(j + 1).drop_last() =~= apps@.take(j as int));
        }
        increment_count(&mut counts, apps[j].status);
        j += 1;
    }
    assert(apps@.take(apps@.len() as int) =~= apps@);
    counts.total = apps.len();
    counts
}

fn mesh_dashboard(mesh: &MeshInstance, k: usize, s: &ClusterSnapshot) -> (r: MeshInstanceDashboard)
    ensures
        mesh_built(r, *mesh, k as int, *s),
{
    let ghost nss = s.namespaces@;
    let ghost aes = s.assessments.entries@;
    let mut pre: Vec<ApplicationRow> = Vec::new();
    let mut i: usize = 0;
    while i < s.namespaces.len()
        invariant
            nss == s.namespaces@,
            aes == s.assessments.entries@,
            i <= nss.len(),
            rows_view(pre@) == expected_rows(nss.take(i as int), *mesh, k as int, aes, s.rollouts@, s.inventories@),
        decreases nss.len() - i,
    {
        assert(nss.take(i + 1).drop_last() =~= nss.take(i as int));
        let n = &s.namespaces[i];
        if shows_on_mesh_exec(n, mesh, k) {
            let row = application_row(n, mesh, k, &s.assessments, &s.rollouts, &s.inventories);
            let ghost before = pre@;
            pre.push(row);
            assert(rows_view(pre@) =~= rows_view(before).push(row@));
        }
        i += 1;
    }
    assert(nss.take(nss.len() as int) =~= nss);
    let ghost expected = expected_rows(nss, *mesh, k as int, aes, s.rollouts@, s.inventories@);
    let mut keys: Vec<(String, String)> = Vec::new();
    let mut j: usize = 0;
    while j < pre.len()
        invariant
            j <= pre@.len(),
            keys@.len() == j,
            forall|q: int| 0 <= q < j ==> (#[trigger] keys@[q]).0@ == pre@[q].application_name@ && keys@[q].1@ == pre@[q].namespace@,
        decreases pre@.len() - j,
    {
        keys.push((pre[j].application_name.clone(), pre[j].namespace.clone()));
        j += 1;
    }
    assert(keys_view(keys@) =~= row_keys(rows_view(pre@)));
    let ord = stable_order(&keys);
    let mut apps: Vec<ApplicationRow> = Vec::new();
    let mut q: usize = 0;
    while q < ord.len()
        invariant
            stable_sorted(keys_view(keys@), ord@),
            keys@.len() == pre@.len(),
            q <= ord@.len(),
            apps@.len() == q,
            forall|t: int| 0 <= t < q ==> #[trigger] apps@[t] == pre@[ord@[t] as int],
        decreases ord@.len() - q,
    {
        assert(ord@[q as int] < pre@.len());
        apps.push(pre[ord[q]].duplicate());
        q += 1;
    }
    assert(rows_view(pre@) == expected);
    assert(stable_sorted(row_keys(expected), ord@));
    assert forall|t: int| 0 <= t < rows_view(apps@).len() implies #[trigger] rows_view(apps@)[t] == expected[ord@[t] as int] by {
        assert(apps@[t] == pre@[ord@[t] as int]);
    }
    let counts = count_statuses(&apps);
    MeshInstanceDashboard {
        revision: mesh.revision.clone(),
        discovery_label: mesh.discovery_label.clone(),
        control_plane_namespace: mesh.control_plane_namespace.clone(),
        version: clone_opt_string(&mesh.version),
        ambient: mesh.ambient,
        counts,
        applications: apps,
    }
}

pub proof fn lemma_expected_rows_len(
    nss: Seq<NamespaceSnapshot>,
    mesh: MeshInstance,
    k: int,
    assessments: Seq<AssessmentNsInfo>,
    rollouts: Map<Seq<char>, Seq<char>>,
    inventories: Seq<String>,
)
    ensures
        expected_rows(nss, mesh, k, assessments, rollouts, inventories).len() <= nss.len(),
    decreases nss.len(),
{
    if nss.len() > 0 {
        lemma_expected_rows_len(nss.drop_last(), mesh, k, assessments, rollouts, inventories);
    }
}

pub proof fn lemma_sum_six_bound(parts: Seq<StatusCounts>, b: int)
    requires
        b >= 0,
        forall|i: int| 0 <= i < parts.len() ==> six_sum(#[trigger] parts[i]) <= b,
    ensures
        sum_six(parts) <= parts.len() * b,
    decreases parts.len(),
{
    if parts.len() > 0 {
        assert forall|i: int| 0 <= i < parts.drop_last().len() implies six_sum(#[trigger] parts.drop_last()[i]) <= b by {
            assert(parts.drop_last()[i] == parts[i]);
        }
        lemma_sum_six_bound(parts.drop_last(), b);
        assert(six_sum(parts.last()) <= b);
        assert((parts.len() - 1) * b + b == parts.len() * b) by (nonlinear_arith);
    }
}

/// Savings estimate when the migrated workloads fit in a `u32`, `None` otherwise.
pub fn checked_migration_savings(meshes: &Vec<MeshInstanceDashboard>) -> (r: Option<MigrationSavingsSummary>)
    ensures
        r == if migrated_workloads(meshes@) <= u32::MAX {
            Some(
                MigrationSavingsSummary {
                    migrated_workloads: migrated_workloads(meshes@) as u32,
                    estimated_sidecar_proxies_removed: migrated_workloads(meshes@) as u32,
                    estimated_memory_mib_saved: saturating_times(migrated_workloads(meshes@), 128) as u32,
                    estimated_cpu_millicores_saved: saturating_times(migrated_workloads(meshes@), 100) as u32,
                },
            )
        } else {
            None
        },
{
    let mut total: u32 = 0;
    let mut i: usize = 0;
    while i < meshes.len()
        invariant
            i <= meshes@.len(),
            total == migrated_workloads(meshes@.take(i as int)),
        decreases meshes@.len() - i,
    {
        let apps = &meshes[i].applications;
        let ghost base = total as int;
        proof {
            assert(meshes@.take(i + 1).drop_last() =~= meshes@.take(i as int));
        }
        let mut j: usize = 0;
        while j < apps.len()
            invariant
                j <= apps@.len(),
                total == base + rows_savings_weight(apps@.take(j as int)),
                base == migrated_workloads(meshes@.take(i as int)),
                i < meshes@.len(),
                apps@ == meshes@[i as int].applications@,
            decreases apps@.len() - j,
        {
            proof {
                assert(apps@.take(j + 1).drop_last() =~= apps@.take(j as int));
            }
            let a = &apps[j];
            if a.status == ApplicationMigrationStatus::Migrated {
                let w: u32 = if a.workload_count == 0 { 1 } else { a.workload_count };
                match total.checked_add(w) {
                    Some(t) => total = t,
                    None => {
                        proof {
                            lemma_rows_savings_weight_prefix(apps@, j + 1);
                            lemma_migrated_workloads_prefix(meshes@, i + 1);
                            assert(rows_savings_weight(apps@.take(j + 1)) == rows_savings_weight(apps@.take(j as int)) + w);
                            assert(meshes@.take(i + 1).drop_last() =~= meshes@.take(i as int));
                            assert(meshes@.take(i + 1).last() == meshes@[i as int]);
                            assert(migrated_workloads(meshes@.take(i + 1)) == base + rows_savings_weight(apps@));
                        }
                        return None;
                    },
                }
            }
            j += 1;
        }
        assert(apps@.take(apps@.len() as int) =~= apps@);
        i += 1;
    }
    assert(meshes@.take(meshes@.len() as int) =~= meshes@);
    let m = match total.checked_mul(128) {
        Some(v) => v,
        None => u32::MAX,
    };
    let c = match total.checked_mul(100) {
        Some(v) => v,
        None => u32::MAX,
    };
    Some(MigrationSavingsSummary {
        migrated_workloads: total,
        estimated_sidecar_proxies_removed: total,
        estimated_memory_mib_saved: m,
        estimated_cpu_millicores_saved: c,
    })
}

fn ambient_mesh_count(meshes: &Vec<MeshInstance>) -> (r: usize)
    ensures
        r == ambient_count(meshes@),
{
    let mut n: usize = 0;
    let mut i: usize = 0;
    while i < meshes.len()
        invariant
            i <= meshes@.len(),
            n == ambient_count(meshes@.take(i as int)),
            n <= i,
        decreases meshes@.len() - i,
    {
        assert(meshes@.take(i + 1).drop_last() =~= meshes@.take(i as int));
        if meshes[i].ambient {
            n += 1;
        }
        i += 1;
    }
    assert(meshes@.take(meshes@.len() as int) =~= meshes@);
    n
}

/// Dashboard of one cluster: for each mesh, its application namespaces with their migration
/// status, sorted by application name then namespace, and counted; ambient meshes first,
/// then by discovery label; the summary over all meshes; and the savings estimate.
pub fn build_dashboard_at(s: &ClusterSnapshot, last_updated: String) -> (r: DashboardResponse)
    requires
        s.meshes@.len() * s.namespaces@.len() <= usize::MAX,
    ensures
        dashboard_built(r, *s, last_updated@),
{
    let mut built: Vec<MeshInstanceDashboard> = Vec::new();
    let mut k: usize = 0;
    while k < s.meshes.len()
        invariant
            k <= s.meshes@.len(),
            built@.len() == k,
            forall|t: int| 0 <= t < k ==> mesh_built(#[trigger] built@[t], s.meshes@[t], t, *s),
        decreases s.meshes@.len() - k,
    {
        let d = mesh_dashboard(&s.meshes[k], k, s);
        built.push(d);
        k += 1;
    }
    let mut keys: Vec<(String, String)> = Vec::new();
    let mut j: usize = 0;
    while j < s.meshes.len()
        invariant
            j <= s.meshes@.len(),
            keys@.len() == j,
            forall|q: int| 0 <= q < j ==> (#[trigger] keys@[q]).0@ == mesh_key(s.meshes@[q]).0 && keys@[q].1@
                == mesh_key(s.meshes@[q]).1,
        decreases s.meshes@.len() - j,
    {
        let rank = if s.meshes[j].ambient { owned("0") } else { owned("1") };
        keys.push((rank, s.meshes[j].discovery_label.clone()));
        j += 1;
    }
    assert(keys_view(keys@) =~= mesh_keys(s.meshes@));
    let ord = stable_order(&keys);
    let mut meshes: Vec<MeshInstanceDashboard> = Vec::new();
    let mut parts: Vec<StatusCounts> = Vec::new();
    let mut q: usize = 0;
    while q < ord.len()
        invariant
            stable_sorted(mesh_keys(s.meshes@), ord@),
            built@.len() == s.meshes@.len(),
            forall|t: int| 0 <= t < built@.len() ==> mesh_built(#[trigger] built@[t], s.meshes@[t], t, *s),
            q <= ord@.len(),
            meshes@.len() == q,
            parts@ == mesh_counts(meshes@),
            forall|t: int| 0 <= t < q ==> mesh_built(#[trigger] meshes@[t], s.meshes@[ord@[t] as int], ord@[t] as int, *s),
        decreases ord@.len() - q,
    {
        let t = ord[q];
        assert(t < built@.len());
        let d = crate::compute::duplicate_mesh(&built[t]);
        proof {
            assert(mesh_built(built@[t as int], s.meshes@[t as int], t as int, *s));
            assert(rows_view(d.applications@) == rows_view(built@[t as int].applications@));
        }
        let ghost before = meshes@;
        parts.push(d.counts);
        meshes.push(d);
        assert(mesh_counts(meshes@) =~= mesh_counts(before).push(meshes@.last().counts));
        q += 1;
    }
    proof {
        let n = s.namespaces@.len() as int;
        assert forall|i: int| 0 <= i < parts@.len() implies six_sum(#[trigger] parts@[i]) <= n by {
            let m = meshes@[i];
            let t = ord@[i] as int;
            assert(mesh_built(m, s.meshes@[t], t, *s));
            lemma_status_counts_partition(m.applications@);
            lemma_expected_rows_len(s.namespaces@, s.meshes@[t], t, s.assessments.entries@, s.rollouts@, s.inventories@);
            assert(rows_view(m.applications@).len() == m.applications@.len());
        }
        lemma_sum_six_bound(parts@, n);
        assert(parts@.len() == s.meshes@.len());
    }
    let summary = aggregate_fleet_summary(parts.as_slice());
    let migration_savings = checked_migration_savings(&meshes);
    let platform = if s.is_openshift { owned("OpenShift") } else { owned("Kubernetes") };
    DashboardResponse {
        cluster_ref: s.cluster_ref.clone(),
        cluster: ClusterDashboard {
            name: s.cluster_name.clone(),
            platform,
            mesh_flavor: s.mesh_flavor.clone(),
            istio_version: clone_opt_string(&s.istio_version),
            mesh_instance_count: s.meshes.len(),
            ambient_mesh_count: ambient_mesh_count(&s.meshes),
        },
        summary,
        mesh_instances: meshes,
        migration_savings,
        last_updated,
        connection_namespace: None,
        connection_name: None,
        reachable: None,
        is_hub: None,
    }
}

/// Dashboard of one cluster, stamped with the current time.
pub fn build_dashboard(s: &ClusterSnapshot) -> (r: DashboardResponse)
    requires
        s.meshes@.len() * s.namespaces@.len() <= usize::MAX,
    ensures
        exists|t: Seq<char>| dashboard_built(r, *s, t),
        crate::clock::instant_text(r.last_updated@),
{
    let now = crate::clock::utc_now_rfc3339();
    build_dashboard_at(s, now)
}


/// Sort key of a mesh of a dashboard: ambient meshes first, then by discovery label.
pub open spec fn dashboard_mesh_key(m: MeshInstanceDashboard) -> (Seq<char>, Seq<char>) {
    (if m.ambient { "0"@ } else { "1"@ }, m.discovery_label@)
}

/// Sort key of a dashboard row: application name, then namespace.
pub open spec fn dashboard_row_key(r: ApplicationRow) -> (Seq<char>, Seq<char>) {
    (r.application_name@, r.namespace@)
}

proof fn lemma_mode_text_ambient(m: DataplaneMode)
    ensures
        (mode_text(m) == "ambient"@) <==> (m == DataplaneMode::Ambient),
{
    reveal_strlit("ambient");
    reveal_strlit("sidecar");
    reveal_strlit("notEnrolled");
    if m == DataplaneMode::Sidecar {
        assert(mode_text(m)[0] != "ambient"@[0]);
    }
    if m == DataplaneMode::NotEnrolled {
        assert(mode_text(m).len() != "ambient"@.len());
    }
}

proof fn lemma_expected_rows_shape(
    nss: Seq<NamespaceSnapshot>,
    mesh: MeshInstance,
    k: int,
    assessments: Seq<AssessmentNsInfo>,
    rollouts: Map<Seq<char>, Seq<char>>,
    inventories: Seq<String>,
)
    ensures
        forall|i: int|
            0 <= i < expected_rows(nss, mesh, k, assessments, rollouts, inventories).len() ==> {
                let r = #[trigger] expected_rows(nss, mesh, k, assessments, rollouts, inventories)[i];
                &&& r.workload_count > 0
                &&& r.ambient_dataplane <==> r.dataplane_mode == "ambient"@
            },
    decreases nss.len(),
{
    if nss.len() > 0 {
        lemma_expected_rows_shape(nss.drop_last(), mesh, k, assessments, rollouts, inventories);
        let prev = expected_rows(nss.drop_last(), mesh, k, assessments, rollouts, inventories);
        let n = nss.last();
        let labels = match n.labels {
            Some(l) => l@,
            None => Map::empty(),
        };
        lemma_mode_text_ambient(spec_dataplane_mode(labels, Some(enrolled_on(n, k))));
        let all = expected_rows(nss, mesh, k, assessments, rollouts, inventories);
        assert forall|i: int| 0 <= i < all.len() implies {
            let r = #[trigger] all[i];
            &&& r.workload_count > 0
            &&& r.ambient_dataplane <==> r.dataplane_mode == "ambient"@
        } by {
            if i < prev.len() {
                assert(all[i] == prev[i]);
            }
        }
    }
}

/// The dashboard of a cluster: it carries the cluster's reference; its meshes come ambient
/// first, then by discovery label; each mesh lists its rows by application name, then
/// namespace, and its counts tally the rows' statuses with the row count as total; the
/// summary is the per-status sum of the mesh counts with the sum of the six as total;
/// every row has workloads and is marked ambient exactly when its dataplane mode is
/// `ambient`; and the savings estimate is the one of the migrated rows whenever it fits.
pub proof fn law_dashboard_shape(d: DashboardResponse, s: ClusterSnapshot, last_updated: Seq<char>)
    requires
        dashboard_built(d, s, last_updated),
    ensures
        d.cluster_ref == s.cluster_ref,
        forall|i: int, j: int|
            0 <= i < j < d.mesh_instances@.len() ==> !pair_lt(
                dashboard_mesh_key(#[trigger] d.mesh_instances@[j]),
                dashboard_mesh_key(#[trigger] d.mesh_instances@[i]),
            ),
        forall|m: int, i: int, j: int|
            0 <= m < d.mesh_instances@.len() && 0 <= i < j < d.mesh_instances@[m].applications@.len() ==> !pair_lt(
                dashboard_row_key(#[trigger] d.mesh_instances@[m].applications@[j]),
                dashboard_row_key(#[trigger] d.mesh_instances@[m].applications@[i]),
            ),
        forall|m: int, i: int|
            0 <= m < d.mesh_instances@.len() && 0 <= i < d.mesh_instances@[m].applications@.len() ==> {
                let r = #[trigger] d.mesh_instances@[m].applications@[i];
                &&& r.workload_count > 0
                &&& r.ambient_dataplane <==> r.dataplane_mode@ == "ambient"@
            },
        forall|m: int|
            0 <= m < d.mesh_instances@.len() ==> counts_of(
                (#[trigger] d.mesh_instances@[m]).counts,
                d.mesh_instances@[m].applications@,
            ),
        summary_of(d.summary, mesh_counts(d.mesh_instances@)),
        d.summary.total == six_sum(d.summary),
        migrated_workloads(d.mesh_instances@) <= u32::MAX ==> (d.migration_savings matches Some(sv) && {
            &&& sv.migrated_workloads == migrated_workloads(d.mesh_instances@)
            &&& sv.estimated_sidecar_proxies_removed == migrated_workloads(d.mesh_instances@)
            &&& sv.estimated_memory_mib_saved == saturating_times(migrated_workloads(d.mesh_instances@), 128)
            &&& sv.estimated_cpu_millicores_saved == saturating_times(migrated_workloads(d.mesh_instances@), 100)
        }),
{
    let ord = choose|ord: Seq<usize>|
        #![trigger stable_sorted(mesh_keys(s.meshes@), ord)]
        stable_sorted(mesh_keys(s.meshes@), ord) && d.mesh_instances@.len() == s.meshes@.len() && forall|i: int|
            0 <= i < d.mesh_instances@.len() ==> mesh_built(
                #[trigger] d.mesh_instances@[i],
                s.meshes@[ord[i] as int],
                ord[i] as int,
                s,
            );
    let ms = d.mesh_instances@;
    assert forall|i: int, j: int| 0 <= i < j < ms.len() implies !pair_lt(
        dashboard_mesh_key(#[trigger] ms[j]),
        dashboard_mesh_key(#[trigger] ms[i]),
    ) by {
        assert(mesh_built(ms[i], s.meshes@[ord[i] as int], ord[i] as int, s));
        assert(mesh_built(ms[j], s.meshes@[ord[j] as int], ord[j] as int, s));
        assert(mesh_keys(s.meshes@)[ord[i] as int] == mesh_key(s.meshes@[ord[i] as int]));
        assert(mesh_keys(s.meshes@)[ord[j] as int] == mesh_key(s.meshes@[ord[j] as int]));
    }
    assert forall|m: int, i: int, j: int|
        0 <= m < ms.len() && 0 <= i < j < ms[m].applications@.len() implies !pair_lt(
        dashboard_row_key(#[trigger] ms[m].applications@[j]),
        dashboard_row_key(#[trigger] ms[m].applications@[i]),
    ) by {
        let mesh = s.meshes@[ord[m] as int];
        assert(mesh_built(ms[m], mesh, ord[m] as int, s));
        let rows = expected_rows(s.namespaces@, mesh, ord[m] as int, s.assessments.entries@, s.rollouts@, s.inventories@);
        let out = rows_view(ms[m].applications@);
        let o = choose|o: Seq<usize>|
            #![trigger stable_sorted(row_keys(rows), o)]
            stable_sorted(row_keys(rows), o) && out.len() == rows.len() && forall|q: int|
                0 <= q < out.len() ==> #[trigger] out[q] == rows[o[q] as int];
        assert(out[i] == rows[o[i] as int]);
        assert(out[j] == rows[o[j] as int]);
        assert(out[i] == ms[m].applications@[i]@);
        assert(out[j] == ms[m].applications@[j]@);
        assert(row_keys(rows)[o[i] as int] == (rows[o[i] as int].application_name, rows[o[i] as int].namespace));
        assert(row_keys(rows)[o[j] as int] == (rows[o[j] as int].application_name, rows[o[j] as int].namespace));
    }
    assert forall|m: int, i: int| 0 <= m < ms.len() && 0 <= i < ms[m].applications@.len() implies {
        let r = #[trigger] ms[m].applications@[i];
        &&& r.workload_count > 0
        &&& r.ambient_dataplane <==> r.dataplane_mode@ == "ambient"@
    } by {
        let mesh = s.meshes@[ord[m] as int];
        assert(mesh_built(ms[m], mesh, ord[m] as int, s));
        let rows = expected_rows(s.namespaces@, mesh, ord[m] as int, s.assessments.entries@, s.rollouts@, s.inventories@);
        lemma_expected_rows_shape(s.namespaces@, mesh, ord[m] as int, s.assessments.entries@, s.rollouts@, s.inventories@);
        let out = rows_view(ms[m].applications@);
        let o = choose|o: Seq<usize>|
            #![trigger stable_sorted(row_keys(rows), o)]
            stable_sorted(row_keys(rows), o) && out.len() == rows.len() && forall|q: int|
                0 <= q < out.len() ==> #[trigger] out[q] == rows[o[q] as int];
        assert(out[i] == rows[o[i] as int]);
        assert(out[i] == ms[m].applications@[i]@);
    }
    assert forall|m: int| 0 <= m < ms.len() implies counts_of((#[trigger] ms[m]).counts, ms[m].applications@) by {
        assert(mesh_built(ms[m], s.meshes@[ord[m] as int], ord[m] as int, s));
    }
    lemma_migrated_workloads_prefix(ms, 0);
    let w = migrated_workloads(ms);
    assert(0 <= saturating_times(w, 128) <= u32::MAX);
    assert(0 <= saturating_times(w, 100) <= u32::MAX);
}

} // verus!
