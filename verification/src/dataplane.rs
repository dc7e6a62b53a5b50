//! Namespace dataplane mode (ambient, sidecar, not enrolled) and migration candidacy.

use vstd::prelude::*;

use crate::labels::Labels;
use crate::model::MeshInstance;
use crate::text::{contains_ignore_ascii_case, has_infix, lower};

verus! {

/// Effective namespace dataplane mode for dashboard and application catalog.
#[derive(Clone, Copy, Debug, PartialEq, Eq, Structural)]
pub enum DataplaneMode {
    Ambient,
    /// Sidecar / legacy dataplane (enrolled on mesh, not ambient-labeled).
    Sidecar,
    /// No mesh enrollment labels detected.
    NotEnrolled,
}

/// Text form of a dataplane mode.
pub open spec fn mode_text(m: DataplaneMode) -> Seq<char> {
    match m {
        DataplaneMode::Ambient => "ambient"@,
        DataplaneMode::Sidecar => "sidecar"@,
        DataplaneMode::NotEnrolled => "notEnrolled"@,
    }
}

impl DataplaneMode {
    pub fn as_str(self) -> (r: &'static str)
        ensures
            r@ == mode_text(self),
    {
        match self {
            DataplaneMode::Ambient => "ambient",
            DataplaneMode::Sidecar => "sidecar",
            DataplaneMode::NotEnrolled => "notEnrolled",
        }
    }

    pub fn is_ambient(self) -> (r: bool)
        ensures
            r == (self == DataplaneMode::Ambient),
    {
        match self {
            DataplaneMode::Ambient => true,
            _ => false,
        }
    }
}

/// A label has the given value.
pub open spec fn label_is(m: Map<Seq<char>, Seq<char>>, k: Seq<char>, v: Seq<char>) -> bool {
    m.contains_key(k) && m[k] == v
}

/// The namespace carries the ambient dataplane label.
pub open spec fn spec_is_migrated(m: Map<Seq<char>, Seq<char>>) -> bool {
    label_is(m, "istio.io/dataplane-mode"@, "ambient"@)
}

/// The labels enroll the namespace on some mesh: a revision label, a discovery label, or
/// sidecar injection enabled.
pub open spec fn spec_mesh_membership(m: Map<Seq<char>, Seq<char>>) -> bool {
    ||| m.contains_key("istio.io/rev"@)
    ||| m.contains_key("istio-discovery"@)
    ||| label_is(m, "istio-injection"@, "enabled"@)
    ||| label_is(m, "istio-injection"@, "true"@)
}

/// The text, in ASCII lower case, contains `ambient`.
pub open spec fn mentions_ambient(s: Option<Seq<char>>) -> bool {
    match s {
        Some(t) => has_infix(lower(t), "ambient"@),
        None => false,
    }
}

/// Dataplane mode from labels and, when the namespace's mesh is known, whether the mesh's
/// enrollment labels select the namespace.
pub open spec fn spec_dataplane_mode(m: Map<Seq<char>, Seq<char>>, enrolled_on_mesh: Option<bool>) -> DataplaneMode {
    if spec_is_migrated(m) {
        DataplaneMode::Ambient
    } else if (match enrolled_on_mesh {
        Some(e) => e,
        None => spec_mesh_membership(m),
    }) {
        DataplaneMode::Sidecar
    } else {
        DataplaneMode::NotEnrolled
    }
}

/// Dataplane mode from stored labels alone.
pub open spec fn spec_dataplane_mode_from_stored(m: Map<Seq<char>, Seq<char>>) -> DataplaneMode {
    if spec_is_migrated(m) {
        DataplaneMode::Ambient
    } else if spec_mesh_membership(m) {
        DataplaneMode::Sidecar
    } else {
        DataplaneMode::NotEnrolled
    }
}

/// Derive dataplane mode from namespace labels and, when the namespace's mesh instance is
/// known, whether that mesh's enrollment labels select the namespace.
pub fn derive_dataplane_mode(labels: &Labels, enrolled_on_mesh: Option<bool>) -> (r: DataplaneMode)
    ensures
        r == spec_dataplane_mode(labels@, enrolled_on_mesh),
{
    if namespace_is_migrated(labels) {
        return DataplaneMode::Ambient;
    }
    let enrolled = match enrolled_on_mesh {
        Some(e) => e,
        None => labels_indicate_mesh_membership(labels),
    };
    if !enrolled {
        return DataplaneMode::NotEnrolled;
    }
    DataplaneMode::Sidecar
}

/// Same as [`derive_dataplane_mode`] when only stored assessment fields are available.
pub fn derive_dataplane_mode_from_stored(
    labels: &Labels,
    mesh_revision: Option<&str>,
    discovery_label: Option<&str>,
) -> (r: DataplaneMode)
    ensures
        r == spec_dataplane_mode_from_stored(labels@),
{
    if namespace_is_migrated(labels) {
        return DataplaneMode::Ambient;
    }
    if !labels_indicate_mesh_membership(labels) {
        return DataplaneMode::NotEnrolled;
    }
    if mesh_targets_ambient(mesh_revision, discovery_label) {
        return DataplaneMode::Sidecar;
    }
    DataplaneMode::Sidecar
}

/// Whether the mesh revision or discovery label names an ambient control plane.
pub fn mesh_targets_ambient(mesh_revision: Option<&str>, discovery_label: Option<&str>) -> (r: bool)
    ensures
        r == (mentions_ambient(match mesh_revision {
            Some(s) => Some(s@),
            None => None,
        }) || mentions_ambient(match discovery_label {
            Some(s) => Some(s@),
            None => None,
        })),
{
    let a = match mesh_revision {
        Some(s) => contains_ignore_ascii_case(s, "ambient"),
        None => false,
    };
    let b = match discovery_label {
        Some(s) => contains_ignore_ascii_case(s, "ambient"),
        None => false,
    };
    a || b
}

/// Whether the labels enroll the namespace on some mesh.
pub fn labels_indicate_mesh_membership(labels: &Labels) -> (r: bool)
    ensures
        r == spec_mesh_membership(labels@),
{
    labels.contains_key("istio.io/rev") || labels.contains_key("istio-discovery")
        || labels.has_value("istio-injection", "enabled") || labels.has_value("istio-injection", "true")
}

/// Namespace is scoped to an ambient Istio control plane (operational assessment path).
pub fn is_ambient_mesh_scope(dataplane: DataplaneMode, mesh: Option<&MeshInstance>) -> (r: bool)
    ensures
        r == (dataplane == DataplaneMode::Ambient || (mesh is Some && mesh->0.ambient)),
{
    dataplane.is_ambient() || match mesh {
        Some(m) => m.ambient,
        None => false,
    }
}

/// True when the namespace has completed ambient dataplane cutover (dashboard **Migrated**).
pub fn namespace_is_migrated(labels: &Labels) -> (r: bool)
    ensures
        r == spec_is_migrated(labels@),
{
    labels.has_value("istio.io/dataplane-mode", "ambient")
}

/// What the mesh inventory says of a namespace and its workloads.
#[derive(Clone, Copy, Debug)]
pub struct NamespaceMeshFacts {
    /// The namespace may hold user applications (not a system or control-plane namespace).
    pub is_application_namespace: bool,
    /// The namespace hosts an ambient control plane.
    pub is_ambient_control_plane_namespace: bool,
    /// The namespace's workloads are mesh infrastructure (ztunnel, istiod, gateways).
    pub is_infrastructure_identity: bool,
}

/// Whether the namespace belongs in the migration-candidates catalog.
pub open spec fn spec_migration_candidate(
    dataplane: DataplaneMode,
    app_pod_count: u32,
    m: Map<Seq<char>, Seq<char>>,
    facts: NamespaceMeshFacts,
) -> bool {
    &&& facts.is_application_namespace
    &&& !facts.is_ambient_control_plane_namespace
    &&& !facts.is_infrastructure_identity
    &&& app_pod_count != 0
    &&& !spec_is_migrated(m)
    &&& (dataplane == DataplaneMode::Sidecar || (dataplane == DataplaneMode::NotEnrolled
        && spec_mesh_membership(m)))
}

/// Whether the namespace should appear in the default migration-candidates catalog.
///
/// Sidecar mesh members with running user app pods that are not yet ambient-labeled.
/// Mesh control-plane namespaces and infra workloads (ztunnel, istiod, gateways) are excluded.
pub fn is_migration_candidate(
    dataplane: DataplaneMode,
    app_pod_count: u32,
    namespace_labels: &Labels,
    facts: &NamespaceMeshFacts,
) -> (r: bool)
    ensures
        r == spec_migration_candidate(dataplane, app_pod_count, namespace_labels@, *facts),
{
    if !facts.is_application_namespace || facts.is_ambient_control_plane_namespace {
        return false;
    }
    if facts.is_infrastructure_identity {
        return false;
    }
    if app_pod_count == 0 || namespace_is_migrated(namespace_labels) {
        return false;
    }
    match dataplane {
        DataplaneMode::Ambient => false,
        DataplaneMode::Sidecar => true,
        DataplaneMode::NotEnrolled => labels_indicate_mesh_membership(namespace_labels),
    }
}

/// A namespace is reported ambient exactly when it carries the ambient dataplane label,
/// whatever its mesh enrollment.
pub proof fn law_ambient_iff_migrated(m: Map<Seq<char>, Seq<char>>, enrolled_on_mesh: Option<bool>)
    ensures
        (spec_dataplane_mode(m, enrolled_on_mesh) == DataplaneMode::Ambient) == spec_is_migrated(m),
        (spec_dataplane_mode_from_stored(m) == DataplaneMode::Ambient) == spec_is_migrated(m),
{
}

/// Without a known mesh, the live and the stored derivations agree.
pub proof fn law_stored_mode_matches_live(m: Map<Seq<char>, Seq<char>>)
    ensures
        spec_dataplane_mode(m, None) == spec_dataplane_mode_from_stored(m),
{
}

/// A migration candidate is never ambient-labeled, never ambient, and runs application pods.
pub proof fn law_candidate_not_migrated(
    dataplane: DataplaneMode,
    app_pod_count: u32,
    m: Map<Seq<char>, Seq<char>>,
    facts: NamespaceMeshFacts,
)
    requires
        spec_migration_candidate(dataplane, app_pod_count, m, facts),
    ensures
        !spec_is_migrated(m),
        dataplane != DataplaneMode::Ambient,
        app_pod_count > 0,
{
}

} // verus!
