//! Findings, severities, categories, scores and summaries shared by every module.

use vstd::prelude::*;

verus! {

/// Severity of an assessment finding.
#[derive(Clone, Copy, Debug, PartialEq, Eq, Structural)]
pub enum FindingSeverity {
    Blocker,
    Warning,
    Info,
}

/// Area of migration readiness that a finding belongs to.
#[derive(Clone, Copy, Debug, PartialEq, Eq, Structural)]
pub enum FindingCategory {
    Readiness,
    SidecarDependency,
    TrafficCompatibility,
    PolicyTranslation,
    Platform,
}

/// One assessment finding.
#[derive(Debug)]
pub struct Finding {
    pub id: String,
    pub severity: FindingSeverity,
    pub category: FindingCategory,
    pub title: String,
    pub message: String,
    pub namespace: Option<String>,
    pub resource: Option<String>,
    pub remediation: Option<String>,
    pub doc_url: Option<String>,
    pub evidence: Option<String>,
}

/// Mathematical value of a [`Finding`]: every text as a sequence of characters.
pub struct FindingView {
    pub id: Seq<char>,
    pub severity: FindingSeverity,
    pub category: FindingCategory,
    pub title: Seq<char>,
    pub message: Seq<char>,
    pub namespace: Option<Seq<char>>,
    pub resource: Option<Seq<char>>,
    pub remediation: Option<Seq<char>>,
    pub doc_url: Option<Seq<char>>,
    pub evidence: Option<Seq<char>>,
}

pub open spec fn opt_view(o: Option<String>) -> Option<Seq<char>> {
    match o {
        Some(s) => Some(s@),
        None => None,
    }
}

impl View for Finding {
    type V = FindingView;

    open spec fn view(&self) -> FindingView {
        FindingView {
            id: self.id@,
            severity: self.severity,
            category: self.category,
            title: self.title@,
            message: self.message@,
            namespace: opt_view(self.namespace),
            resource: opt_view(self.resource),
            remediation: opt_view(self.remediation),
            doc_url: opt_view(self.doc_url),
            evidence: opt_view(self.evidence),
        }
    }
}

/// Views of a sequence of findings.
pub open spec fn findings_view(s: Seq<Finding>) -> Seq<FindingView> {
    s.map_values(|f: Finding| f@)
}

/// Copy of an optional text with the same value.
pub fn clone_opt_string(o: &Option<String>) -> (r: Option<String>)
    ensures
        r == *o,
{
    match o {
        Some(s) => Some(s.clone()),
        None => None,
    }
}

impl Finding {
    /// Copy of the finding with every field equal.
    pub fn duplicate(&self) -> (r: Finding)
        ensures
            r == *self,
    {
        Finding {
            id: self.id.clone(),
            severity: self.severity,
            category: self.category,
            title: self.title.clone(),
            message: self.message.clone(),
            namespace: clone_opt_string(&self.namespace),
            resource: clone_opt_string(&self.resource),
            remediation: clone_opt_string(&self.remediation),
            doc_url: clone_opt_string(&self.doc_url),
            evidence: clone_opt_string(&self.evidence),
        }
    }
}

/// Copy of a list of findings, element by element equal.
pub fn duplicate_findings(v: &Vec<Finding>) -> (r: Vec<Finding>)
    ensures
        r@ == v@,
{
    let mut out: Vec<Finding> = Vec::new();
    let mut i: usize = 0;
    while i < v.len()
        invariant
            i <= v.len(),
            out@ == v@.take(i as int),
        decreases v.len() - i,
    {
        out.push(v[i].duplicate());
        i += 1;
        assert(out@ =~= v@.take(i as int));
    }
    assert(v@.take(v.len() as int) =~= v@);
    out
}

/// Category scores in percent.
#[derive(Clone, Copy, Debug, PartialEq, Eq, Structural)]
pub struct AssessmentScores {
    pub readiness: u8,
    pub sidecar_dependency: u8,
    pub traffic_compatibility: u8,
    pub overall: u8,
}

impl AssessmentScores {
    /// All scores zero.
    pub fn zero() -> (r: AssessmentScores)
        ensures
            r.readiness == 0,
            r.sidecar_dependency == 0,
            r.traffic_compatibility == 0,
            r.overall == 0,
    {
        AssessmentScores { readiness: 0, sidecar_dependency: 0, traffic_compatibility: 0, overall: 0 }
    }
}

/// Number of findings per severity.
#[derive(Clone, Copy, Debug, PartialEq, Eq, Structural)]
pub struct FindingSummary {
    pub blockers: u32,
    pub warnings: u32,
    pub info: u32,
}

/// Number of findings of the given severity.
pub open spec fn count_severity(s: Seq<Finding>, sev: FindingSeverity) -> nat
    decreases s.len(),
{
    if s.len() == 0 {
        0
    } else {
        count_severity(s.drop_last(), sev) + if s.last().severity == sev {
            1nat
        } else {
            0nat
        }
    }
}

pub proof fn lemma_count_severity_bound(s: Seq<Finding>, sev: FindingSeverity)
    ensures
        count_severity(s, sev) <= s.len(),
    decreases s.len(),
{
    if s.len() > 0 {
        lemma_count_severity_bound(s.drop_last(), sev);
    }
}

impl FindingSummary {
    /// All counts zero.
    pub fn zero() -> (r: FindingSummary)
        ensures
            r.blockers == 0,
            r.warnings == 0,
            r.info == 0,
    {
        FindingSummary { blockers: 0, warnings: 0, info: 0 }
    }

    /// Count findings per severity.
    pub fn from_findings(findings: &[Finding]) -> (r: FindingSummary)
        requires
            findings@.len() <= u32::MAX,
        ensures
            r.blockers == count_severity(findings@, FindingSeverity::Blocker),
            r.warnings == count_severity(findings@, FindingSeverity::Warning),
            r.info == count_severity(findings@, FindingSeverity::Info),
    {
        let mut blockers: u32 = 0;
        let mut warnings: u32 = 0;
        let mut info: u32 = 0;
        let mut i: usize = 0;
        while i < findings.len()
            invariant
                i <= findings@.len(),
                findings@.len() <= u32::MAX,
                blockers == count_severity(findings@.take(i as int), FindingSeverity::Blocker),
                warnings == count_severity(findings@.take(i as int), FindingSeverity::Warning),
                info == count_severity(findings@.take(i as int), FindingSeverity::Info),
            decreases findings@.len() - i,
        {
            let ghost prefix = findings@.take(i as int);
            let ghost next = findings@.take(i + 1);
            assert(next.drop_last() =~= prefix);
            proof {
                lemma_count_severity_bound(prefix, FindingSeverity::Blocker);
                lemma_count_severity_bound(prefix, FindingSeverity::Warning);
                lemma_count_severity_bound(prefix, FindingSeverity::Info);
            }
            match findings[i].severity {
                FindingSeverity::Blocker => blockers += 1,
                FindingSeverity::Warning => warnings += 1,
                FindingSeverity::Info => info += 1,
            }
            i += 1;
        }
        assert(findings@.take(findings@.len() as int) =~= findings@);
        FindingSummary { blockers, warnings, info }
    }
}

} // verus!

verus! {

/// How namespaces are enrolled on a mesh control plane.
#[derive(Clone, Copy, Debug, PartialEq, Eq, Structural)]
pub enum MeshEnrollmentMode {
    Revision,
    DiscoveryLabel,
    RevisionAndDiscovery,
    MemberRoll,
}

/// Labels and references that enroll a namespace on a mesh control plane.
#[derive(Clone, Debug)]
pub struct MeshEnrollment {
    pub mode: MeshEnrollmentMode,
    pub revision: String,
    pub istio_revision: Option<String>,
    pub revision_tag: Option<String>,
    pub discovery_label_key: Option<String>,
    pub discovery_label_value: Option<String>,
    pub member_roll_namespace: Option<String>,
    pub from_istiod_config: bool,
}

/// An Istio / OSSM control-plane instance.
#[derive(Clone, Debug)]
pub struct MeshInstance {
    pub revision: String,
    pub discovery_label: String,
    pub control_plane_namespace: String,
    pub version: Option<String>,
    pub ambient: bool,
    pub enrolled_namespace_count: usize,
    pub enrollment: MeshEnrollment,
}

/// Labels of an optional owned label set.
pub open spec fn opt_map_labels(labels: Option<crate::labels::Labels>) -> Option<Map<Seq<char>, Seq<char>>> {
    match labels {
        Some(l) => Some(l@),
        None => None,
    }
}

} // verus!
