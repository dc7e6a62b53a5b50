//! Inputs of the readiness rules and the finding constructor.

use vstd::prelude::*;

use crate::model::{Finding, FindingCategory, FindingSeverity};

verus! {

/// Cluster facts the rules evaluate.
#[derive(Clone, Debug, Default)]
pub struct RuleContext {
    pub mesh_version: Option<String>,
    pub mesh_flavor: Option<String>,
    pub ambient_installed: bool,
    pub gateway_api_present: bool,
    pub namespaces: Vec<NamespaceContext>,
    pub workloads: Vec<WorkloadContext>,
    pub policies: PolicyContext,
    pub platform: PlatformContext,
}

/// Platform integrations detected on the cluster.
#[derive(Clone, Debug, Default)]
pub struct PlatformContext {
    pub spire_detected: bool,
    pub spire_hits: Vec<String>,
    pub ossm_member_namespaces: Vec<String>,
}

/// Mesh enrollment of one namespace.
#[derive(Clone, Debug, Default)]
pub struct NamespaceContext {
    pub name: String,
    pub injection_enabled: bool,
    pub ambient_enabled: bool,
    pub workload_count: u32,
    pub has_vm_workloads: bool,
}

/// Per-pod signals used by sidecar dependency rules.
#[derive(Clone, Debug, Default)]
pub struct WorkloadContext {
    pub namespace: String,
    pub name: String,
    pub has_istio_sidecar: bool,
    pub uses_localhost_proxy: bool,
    pub localhost_proxy_hits: Vec<String>,
    pub hold_until_proxy: bool,
}

/// Istio and Gateway API policy objects, each as `namespace/name`.
#[derive(Clone, Debug, Default)]
pub struct PolicyContext {
    pub peer_auth_disable: Vec<String>,
    pub envoy_filters: Vec<String>,
    pub virtual_services: Vec<String>,
    pub http_routes: Vec<String>,
    pub l7_authorization_policies: Vec<String>,
    pub destination_rules: Vec<String>,
    pub destination_rules_with_subsets: Vec<String>,
    pub envoy_filters_waypoint: Vec<String>,
    pub ingress_gateways: Vec<IngressGatewayInfo>,
    pub external_routes: Vec<ExternalRouteInfo>,
}

/// Gateway API `Gateway` used for north–south ingress (shared or dedicated).
#[derive(Clone, Debug, Default)]
pub struct IngressGatewayInfo {
    pub namespace: String,
    pub name: String,
    pub istio_revision: Option<String>,
    pub discovery_label: Option<String>,
    pub programmed: bool,
    pub gateway_class: Option<String>,
}

/// HTTPRoute or VirtualService that exposes an app externally via a gateway.
#[derive(Clone, Debug, Default)]
pub struct ExternalRouteInfo {
    pub namespace: String,
    pub name: String,
    pub kind: String,
    pub hostnames: Vec<String>,
    pub parent_gateway_namespace: Option<String>,
    pub parent_gateway_name: Option<String>,
    /// When known from HTTPRoute status: route accepted by parent gateway.
    pub parents_attached: Option<bool>,
}

/// A finding with the given identity and texts, and no namespace, resource,
/// remediation, documentation link or evidence.
pub fn finding(
    id: &str,
    severity: FindingSeverity,
    category: FindingCategory,
    title: String,
    message: String,
) -> (r: Finding)
    ensures
        r.id@ == id@,
        r.severity == severity,
        r.category == category,
        r.title == title,
        r.message == message,
        r.namespace is None,
        r.resource is None,
        r.remediation is None,
        r.doc_url is None,
        r.evidence is None,
{
    Finding {
        id: id.to_owned(),
        severity,
        category,
        title,
        message,
        namespace: None,
        resource: None,
        remediation: None,
        doc_url: None,
        evidence: None,
    }
}

} // verus!
