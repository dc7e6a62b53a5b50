//! Dashboard payload types: per-application migration status, counts per status, mesh
//! instances, clusters and the fleet.

use vstd::prelude::*;

use crate::model::{clone_opt_string, opt_view};

verus! {

/// Migration status of one application namespace.
#[derive(Clone, Copy, Debug, PartialEq, Eq, Structural)]
pub enum ApplicationMigrationStatus {
    Migrated,
    Processing,
    Blocker,
    Failed,
    Scanned,
    NotScanned,
}

/// Database text of a status.
pub open spec fn status_db_text(s: ApplicationMigrationStatus) -> Seq<char> {
    match s {
        ApplicationMigrationStatus::Migrated => "migrated"@,
        ApplicationMigrationStatus::Processing => "processing"@,
        ApplicationMigrationStatus::Blocker => "blocker"@,
        ApplicationMigrationStatus::Failed => "failed"@,
        ApplicationMigrationStatus::Scanned => "scanned"@,
        ApplicationMigrationStatus::NotScanned => "not_scanned"@,
    }
}

impl ApplicationMigrationStatus {
    pub fn as_db_str(self) -> (r: &'static str)
        ensures
            r@ == status_db_text(self),
    {
        match self {
            ApplicationMigrationStatus::Migrated => "migrated",
            ApplicationMigrationStatus::Processing => "processing",
            ApplicationMigrationStatus::Blocker => "blocker",
            ApplicationMigrationStatus::Failed => "failed",
            ApplicationMigrationStatus::Scanned => "scanned",
            ApplicationMigrationStatus::NotScanned => "not_scanned",
        }
    }

    /// Status whose database text is `s`; `None` for any other text.
    pub fn from_db_str(s: &str) -> (r: Option<ApplicationMigrationStatus>)
        ensures
            r matches Some(st) ==> status_db_text(st) == s@,
            r is None ==> forall|st: ApplicationMigrationStatus| status_db_text(st) != s@,
    {
        let all = [
            ApplicationMigrationStatus::Migrated,
            ApplicationMigrationStatus::Processing,
            ApplicationMigrationStatus::Blocker,
            ApplicationMigrationStatus::Failed,
            ApplicationMigrationStatus::Scanned,
            ApplicationMigrationStatus::NotScanned,
        ];
        let mut i: usize = 0;
        while i < 6
            invariant
                i <= 6,
                all@ == seq![
                    ApplicationMigrationStatus::Migrated,
                    ApplicationMigrationStatus::Processing,
                    ApplicationMigrationStatus::Blocker,
                    ApplicationMigrationStatus::Failed,
                    ApplicationMigrationStatus::Scanned,
                    ApplicationMigrationStatus::NotScanned,
                ],
                forall|j: int| 0 <= j < i ==> status_db_text(#[trigger] all@[j]) != s@,
            decreases 6 - i,
        {
            let st = all[i];
            if crate::text::str_eq(st.as_db_str(), s) {
                return Some(st);
            }
            i += 1;
        }
        assert forall|st: ApplicationMigrationStatus| status_db_text(st) != s@ by {
            match st {
                ApplicationMigrationStatus::Migrated => assert(status_db_text(all@[0]) != s@),
                ApplicationMigrationStatus::Processing => assert(status_db_text(all@[1]) != s@),
                ApplicationMigrationStatus::Blocker => assert(status_db_text(all@[2]) != s@),
                ApplicationMigrationStatus::Failed => assert(status_db_text(all@[3]) != s@),
                ApplicationMigrationStatus::Scanned => assert(status_db_text(all@[4]) != s@),
                ApplicationMigrationStatus::NotScanned => assert(status_db_text(all@[5]) != s@),
            }
        }
        None
    }
}

/// Every status has its own database text, so a status read back from the text written
/// for it is that status.
pub proof fn law_status_text_identifies_status(a: ApplicationMigrationStatus, b: ApplicationMigrationStatus)
    requires
        status_db_text(a) == status_db_text(b),
    ensures
        a == b,
{
    reveal_strlit("migrated");
    reveal_strlit("processing");
    reveal_strlit("blocker");
    reveal_strlit("failed");
    reveal_strlit("scanned");
    reveal_strlit("not_scanned");
    assert("migrated"@.len() == 8 && "processing"@.len() == 10 && "failed"@.len() == 6 && "not_scanned"@.len() == 11);
    assert("blocker"@.len() == 7 && "scanned"@.len() == 7 && "blocker"@[0] == 'b' && "scanned"@[0] == 's');
}

/// Number of applications per status, and their total.
#[derive(Clone, Copy, Debug, Default, PartialEq, Eq, Structural)]
pub struct StatusCounts {
    pub migrated: usize,
    pub processing: usize,
    pub blocker: usize,
    pub failed: usize,
    pub scanned: usize,
    pub not_scanned: usize,
    pub total: usize,
}

/// Counts that are all zero.
pub open spec fn no_counts() -> StatusCounts {
    StatusCounts { migrated: 0, processing: 0, blocker: 0, failed: 0, scanned: 0, not_scanned: 0, total: 0 }
}

impl StatusCounts {
    /// All counts zero.
    pub fn zero() -> (r: StatusCounts)
        ensures
            r == no_counts(),
    {
        StatusCounts { migrated: 0, processing: 0, blocker: 0, failed: 0, scanned: 0, not_scanned: 0, total: 0 }
    }
}

/// One application row of the dashboard.
#[derive(Debug)]
pub struct ApplicationRow {
    /// Display name from pod labels (falls back to namespace).
    pub application_name: String,
    pub namespace: String,
    pub status: ApplicationMigrationStatus,
    pub mesh_revision: String,
    pub discovery_label: String,
    /// `ambient` | `sidecar` | `notEnrolled`
    pub dataplane_mode: String,
    /// Deprecated alias; true only when `dataplane_mode == "ambient"`.
    pub ambient_dataplane: bool,
    pub blocker_count: usize,
    pub workload_count: u32,
    pub rollout_phase: Option<String>,
    pub assessment_ref: Option<String>,
}

/// Mathematical value of an [`ApplicationRow`]: every text as a sequence of characters.
pub struct ApplicationRowView {
    pub application_name: Seq<char>,
    pub namespace: Seq<char>,
    pub status: ApplicationMigrationStatus,
    pub mesh_revision: Seq<char>,
    pub discovery_label: Seq<char>,
    pub dataplane_mode: Seq<char>,
    pub ambient_dataplane: bool,
    pub blocker_count: usize,
    pub workload_count: u32,
    pub rollout_phase: Option<Seq<char>>,
    pub assessment_ref: Option<Seq<char>>,
}

impl View for ApplicationRow {
    type V = ApplicationRowView;

    open spec fn view(&self) -> ApplicationRowView {
        ApplicationRowView {
            application_name: self.application_name@,
            namespace: self.namespace@,
            status: self.status,
            mesh_revision: self.mesh_revision@,
            discovery_label: self.discovery_label@,
            dataplane_mode: self.dataplane_mode@,
            ambient_dataplane: self.ambient_dataplane,
            blocker_count: self.blocker_count,
            workload_count: self.workload_count,
            rollout_phase: opt_view(self.rollout_phase),
            assessment_ref: opt_view(self.assessment_ref),
        }
    }
}

impl ApplicationRow {
    /// Copy with every field equal.
    pub fn duplicate(&self) -> (r: ApplicationRow)
        ensures
            r == *self,
    {
        ApplicationRow {
            application_name: self.application_name.clone(),
            namespace: self.namespace.clone(),
            status: self.status,
            mesh_revision: self.mesh_revision.clone(),
            discovery_label: self.discovery_label.clone(),
            dataplane_mode: self.dataplane_mode.clone(),
            ambient_dataplane: self.ambient_dataplane,
            blocker_count: self.blocker_count,
            workload_count: self.workload_count,
            rollout_phase: clone_opt_string(&self.rollout_phase),
            assessment_ref: clone_opt_string(&self.assessment_ref),
        }
    }
}

/// One mesh control plane on the dashboard, with its applications.
#[derive(Debug)]
pub struct MeshInstanceDashboard {
    pub revision: String,
    pub discovery_label: String,
    pub control_plane_namespace: String,
    pub version: Option<String>,
    pub ambient: bool,
    pub counts: StatusCounts,
    pub applications: Vec<ApplicationRow>,
}

/// Cluster identity on the dashboard.
#[derive(Debug)]
pub struct ClusterDashboard {
    pub name: String,
    pub platform: String,
    pub mesh_flavor: String,
    pub istio_version: Option<String>,
    pub mesh_instance_count: usize,
    pub ambient_mesh_count: usize,
}

impl ClusterDashboard {
    /// Copy with every field equal.
    pub fn duplicate(&self) -> (r: ClusterDashboard)
        ensures
            r == *self,
    {
        ClusterDashboard {
            name: self.name.clone(),
            platform: self.platform.clone(),
            mesh_flavor: self.mesh_flavor.clone(),
            istio_version: clone_opt_string(&self.istio_version),
            mesh_instance_count: self.mesh_instance_count,
            ambient_mesh_count: self.ambient_mesh_count,
        }
    }
}

/// Estimated resource reduction after sidecar → ambient cutover (heuristic per workload).
#[derive(Clone, Copy, Debug, Default, PartialEq, Eq, Structural)]
pub struct MigrationSavingsSummary {
    pub migrated_workloads: u32,
    pub estimated_sidecar_proxies_removed: u32,
    pub estimated_memory_mib_saved: u32,
    pub estimated_cpu_millicores_saved: u32,
}

/// Dashboard of one cluster.
#[derive(Debug)]
pub struct DashboardResponse {
    pub cluster_ref: String,
    pub cluster: ClusterDashboard,
    pub summary: StatusCounts,
    pub mesh_instances: Vec<MeshInstanceDashboard>,
    pub migration_savings: Option<MigrationSavingsSummary>,
    pub last_updated: String,
    pub connection_namespace: Option<String>,
    pub connection_name: Option<String>,
    pub reachable: Option<bool>,
    pub is_hub: Option<bool>,
}

/// One cluster of the fleet dashboard.
#[derive(Debug)]
pub struct FleetClusterDashboard {
    pub cluster_ref: String,
    pub cluster: ClusterDashboard,
    pub summary: StatusCounts,
    pub mesh_instances: Vec<MeshInstanceDashboard>,
    pub last_updated: String,
}

/// Dashboard of every cluster known to the hub.
#[derive(Debug)]
pub struct FleetDashboardResponse {
    pub summary: StatusCounts,
    pub clusters: Vec<FleetClusterDashboard>,
    pub last_updated: String,
}

} // verus!
