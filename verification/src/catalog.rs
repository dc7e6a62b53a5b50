//! Application catalog records: per-namespace assessment results, risk levels and
//! suggestions.

use vstd::prelude::*;

use crate::labels::Labels;
use crate::model::{AssessmentScores, Finding, FindingSummary};

verus! {

/// A remediation suggestion tied to a finding.
#[derive(Debug)]
pub struct AssessmentSuggestion {
    pub finding_id: String,
    pub severity: String,
    pub title: String,
    pub remediation: String,
}

/// Mathematical value of an [`AssessmentSuggestion`].
pub struct SuggestionView {
    pub finding_id: Seq<char>,
    pub severity: Seq<char>,
    pub title: Seq<char>,
    pub remediation: Seq<char>,
}

impl View for AssessmentSuggestion {
    type V = SuggestionView;

    open spec fn view(&self) -> SuggestionView {
        SuggestionView {
            finding_id: self.finding_id@,
            severity: self.severity@,
            title: self.title@,
            remediation: self.remediation@,
        }
    }
}

/// Views of a list of suggestions.
pub open spec fn suggestions_view(s: Seq<AssessmentSuggestion>) -> Seq<SuggestionView> {
    s.map_values(|x: AssessmentSuggestion| x@)
}

/// Migration risk of an application.
#[derive(Clone, Copy, Debug, PartialEq, Eq, Structural)]
pub enum RiskLevel {
    Low,
    Medium,
    High,
    Critical,
}

/// Database text of a risk level.
pub open spec fn risk_db_text(r: RiskLevel) -> Seq<char> {
    match r {
        RiskLevel::Low => "low"@,
        RiskLevel::Medium => "medium"@,
        RiskLevel::High => "high"@,
        RiskLevel::Critical => "critical"@,
    }
}

impl RiskLevel {
    pub fn as_db_str(self) -> (r: &'static str)
        ensures
            r@ == risk_db_text(self),
    {
        match self {
            RiskLevel::Low => "low",
            RiskLevel::Medium => "medium",
            RiskLevel::High => "high",
            RiskLevel::Critical => "critical",
        }
    }

    /// Risk level of a database text; any text other than `critical`, `high` and `medium`
    /// reads as low.
    pub fn from_db_str(s: &str) -> (r: RiskLevel)
        ensures
            r == (if s@ == "critical"@ {
                RiskLevel::Critical
            } else if s@ == "high"@ {
                RiskLevel::High
            } else if s@ == "medium"@ {
                RiskLevel::Medium
            } else {
                RiskLevel::Low
            }),
    {
        if crate::text::str_eq(s, "critical") {
            RiskLevel::Critical
        } else if crate::text::str_eq(s, "high") {
            RiskLevel::High
        } else if crate::text::str_eq(s, "medium") {
            RiskLevel::Medium
        } else {
            RiskLevel::Low
        }
    }
}

/// Assessment of one application namespace.
#[derive(Debug)]
pub struct ApplicationAssessmentRecord {
    pub namespace: String,
    pub application_name: String,
    pub workload_components: Vec<String>,
    pub migration_candidate: bool,
    pub mesh_revision: Option<String>,
    pub discovery_label: Option<String>,
    pub control_plane_namespace: Option<String>,
    pub hostnames: Vec<String>,
    pub namespace_labels: Labels,
    /// `ambient` | `sidecar` | `notEnrolled` — derived at assessment time.
    pub dataplane_mode: String,
    pub ingress_gateway_namespace: Option<String>,
    pub ingress_same_namespace: bool,
    pub workload_count: u32,
    pub readiness_pct: u8,
    pub risk_level: RiskLevel,
    pub blocker_count: u32,
    pub warning_count: u32,
    pub scores: AssessmentScores,
    pub summary: FindingSummary,
    pub findings: Vec<Finding>,
    pub suggestions: Vec<AssessmentSuggestion>,
}

/// Assessment of every application namespace of a cluster.
#[derive(Debug)]
pub struct ClusterAssessmentRun {
    pub cluster_ref: String,
    pub applications: Vec<ApplicationAssessmentRecord>,
    pub cluster_scores: AssessmentScores,
    pub cluster_summary: FindingSummary,
    /// Findings that could not be mapped to a single namespace (shown cluster-wide in UI).
    pub cluster_findings: Vec<Finding>,
}

/// One application of the catalog list.
#[derive(Debug)]
pub struct ApplicationListItem {
    pub namespace: String,
    pub application_name: String,
    pub workload_components: Vec<String>,
    pub migration_candidate: bool,
    pub cluster_ref: String,
    pub mesh_revision: Option<String>,
    pub discovery_label: Option<String>,
    pub control_plane_namespace: Option<String>,
    pub hostnames: Vec<String>,
    pub namespace_labels: Labels,
    pub dataplane_mode: String,
    pub ingress_gateway_namespace: Option<String>,
    pub ingress_same_namespace: bool,
    pub workload_count: u32,
    pub readiness_pct: u8,
    pub risk_level: RiskLevel,
    pub blocker_count: u32,
    pub warning_count: u32,
}

/// One page of the catalog list.
#[derive(Debug)]
pub struct ApplicationListPage {
    pub items: Vec<ApplicationListItem>,
    pub total: u64,
    pub page: u32,
    pub page_size: u32,
    pub cluster_ref: String,
    pub run_id: Option<String>,
    pub last_assessed_at: Option<String>,
    pub cluster_summary: FindingSummary,
    pub cluster_findings: Vec<Finding>,
    pub excluded_ambient_count: u64,
}

/// One application of the catalog, with its findings and suggestions.
#[derive(Debug)]
pub struct ApplicationDetail {
    pub list: ApplicationListItem,
    pub scores: AssessmentScores,
    pub summary: FindingSummary,
    pub findings: Vec<Finding>,
    pub suggestions: Vec<AssessmentSuggestion>,
}

} // verus!
