//! The assessment pipeline and what surrounds it: running the rules with scores and
//! summary, the cluster identity of a dashboard, bearer tokens and approval permission,
//! and the text table the command line prints.

use vstd::prelude::*;

use crate::auth::AuthError;
use crate::dashboard::ClusterDashboard;
use crate::model::{count_severity, findings_view, AssessmentScores, Finding, FindingSeverity, FindingSummary, MeshInstance};
use crate::rollouts::ApiError;
use crate::rules::RuleContext;
use crate::sarif::AssessOutput;
use crate::scoring::{compute_scores, spec_scores};
use crate::text::{decimal, decimal_text, owned, starts_with, strings_view, substring};
use crate::traffic::{registry_findings, IngressFacts, RuleRegistry};

verus! {

/// Result of a full mesh assessment pipeline.
#[derive(Debug)]
pub struct AssessmentResult {
    pub findings: Vec<Finding>,
    pub scores: AssessmentScores,
    pub summary: FindingSummary,
}

/// Run every registered rule, then score and summarize the findings.
pub fn run_assessment(registry: &RuleRegistry, ctx: &RuleContext, facts: &IngressFacts) -> (r: AssessmentResult)
    requires
        facts.routes@.len() == ctx.policies.external_routes@.len(),
        registry_findings(registry.rules@, *ctx, *facts).len() <= u32::MAX,
    ensures
        findings_view(r.findings@) == registry_findings(registry.rules@, *ctx, *facts),
        r.scores.readiness == spec_scores(r.findings@).0,
        r.scores.sidecar_dependency == spec_scores(r.findings@).1,
        r.scores.traffic_compatibility == spec_scores(r.findings@).2,
        r.scores.overall == spec_scores(r.findings@).3,
        r.summary.blockers == count_severity(r.findings@, FindingSeverity::Blocker),
        r.summary.warnings == count_severity(r.findings@, FindingSeverity::Warning),
        r.summary.info == count_severity(r.findings@, FindingSeverity::Info),
{
    let findings = registry.evaluate_all(ctx, facts);
    assert(findings@.len() == findings_view(findings@).len());
    let scores = compute_scores(findings.as_slice());
    let summary = FindingSummary::from_findings(findings.as_slice());
    AssessmentResult { findings, scores, summary }
}

/// Number of ambient meshes of a list of instances.
pub open spec fn ambient_count(s: Seq<MeshInstance>) -> nat
    decreases s.len(),
{
    if s.len() == 0 {
        0
    } else {
        ambient_count(s.drop_last()) + if s.last().ambient { 1nat } else { 0nat }
    }
}

/// Identity of a cluster on its dashboard: its display name, OpenShift or Kubernetes, its
/// mesh flavor and Istio version, and how many of its meshes there are and are ambient.
pub fn cluster_meta(
    name: String,
    is_openshift: bool,
    mesh_flavor: String,
    istio_version: Option<String>,
    meshes: &Vec<MeshInstance>,
) -> (r: ClusterDashboard)
    ensures
        r.name == name,
        r.platform@ == if is_openshift { "OpenShift"@ } else { "Kubernetes"@ },
        r.mesh_flavor == mesh_flavor,
        r.istio_version == istio_version,
        r.mesh_instance_count == meshes@.len(),
        r.ambient_mesh_count == ambient_count(meshes@),
{
    let mut ambient: usize = 0;
    let mut i: usize = 0;
    while i < meshes.len()
        invariant
            i <= meshes@.len(),
            ambient == ambient_count(meshes@.take(i as int)),
            ambient <= i,
        decreases meshes@.len() - i,
    {
        assert(meshes@.take(i + 1).drop_last() =~= meshes@.take(i as int));
        if meshes[i].ambient {
            ambient += 1;
        }
        i += 1;
    }
    assert(meshes@.take(meshes@.len() as int) =~= meshes@);
    ClusterDashboard {
        name,
        platform: if is_openshift { owned("OpenShift") } else { owned("Kubernetes") },
        mesh_flavor,
        istio_version,
        mesh_instance_count: meshes.len(),
        ambient_mesh_count: ambient,
    }
}

/// Display name of the cluster a dashboard describes: the configured name when it is not
/// empty, else the display name or else the name of the first Cluster resource, else
/// `Connected cluster` inside a pod and `Hub cluster` outside one.
pub fn cluster_display_name(configured: Option<String>, first_cluster: Option<(Option<String>, Option<String>)>, in_pod: bool) -> (r: String)
    ensures
        r@ == match configured {
            Some(n) if n@.len() > 0 => n@,
            _ => match first_cluster {
                Some((Some(d), _)) => d@,
                Some((None, Some(n))) => n@,
                _ => if in_pod { "Connected cluster"@ } else { "Hub cluster"@ },
            },
        },
{
    match configured {
        Some(n) => {
            if n.unicode_len() > 0 {
                return n;
            }
        },
        None => {},
    }
    match first_cluster {
        Some((Some(d), _)) => return d,
        Some((None, Some(n))) => return n,
        _ => {},
    }
    if in_pod {
        owned("Connected cluster")
    } else {
        owned("Hub cluster")
    }
}

/// Reference of the cluster this hub records its scans under: the configured one, else
/// `in-cluster`.
pub fn cluster_ref_from_setting(configured: Option<String>) -> (r: String)
    ensures
        r@ == match configured {
            Some(c) => c@,
            None => "in-cluster"@,
        },
{
    match configured {
        Some(c) => c,
        None => owned("in-cluster"),
    }
}

/// Token of an `Authorization` header: what follows `Bearer ` or `bearer `.
pub open spec fn bearer_of(header: Option<Seq<char>>) -> Option<Seq<char>> {
    match header {
        Some(v) => if crate::text::has_prefix(v, "Bearer "@) || crate::text::has_prefix(v, "bearer "@) {
            Some(v.subrange(7, v.len() as int))
        } else {
            None
        },
        None => None,
    }
}

/// Token of an `Authorization` header.
pub fn bearer_token(header: Option<&str>) -> (r: Option<String>)
    ensures
        crate::model::opt_view(r) == bearer_of(
            match header {
                Some(v) => Some(v@),
                None => None,
            },
        ),
{
    proof {
        reveal_strlit("Bearer ");
        reveal_strlit("bearer ");
    }
    match header {
        Some(v) => {
            if starts_with(v, "Bearer ") || starts_with(v, "bearer ") {
                let n = v.unicode_len();
                Some(substring(v, 7, n))
            } else {
                None
            }
        },
        None => None,
    }
}

/// Refusal of a request without a usable token: 401, with what was wrong.
pub fn token_refusal(token_present: bool) -> (r: ApiError)
    ensures
        r.status == 401,
        r.message@ == if token_present {
            "invalid or expired token"@
        } else {
            "missing Authorization: Bearer token"@
        },
{
    if token_present {
        ApiError { status: 401, message: owned("invalid or expired token") }
    } else {
        ApiError { status: 401, message: owned("missing Authorization: Bearer token") }
    }
}

/// Whether an approval may go on after the permission check: a failed check is 500 with
/// its text, a refusal 403.
pub fn approval_permission(allowed: Result<bool, AuthError>) -> (r: Result<(), ApiError>)
    ensures
        match allowed {
            Ok(true) => r is Ok,
            Ok(false) => r matches Err(e) && e.status == 403 && e.message@ == "insufficient permissions"@,
            Err(a) => r matches Err(e) && e.status == 500 && e.message@ == match a {
                AuthError::InvalidCredentials => "invalid credentials"@,
                AuthError::Db(m) => "database error: "@ + m@,
                AuthError::Token(m) => "token error: "@ + m@,
                AuthError::Rbac(m) => "rbac error: "@ + m@,
            },
        },
{
    match allowed {
        Ok(true) => Ok(()),
        Ok(false) => Err(ApiError { status: 403, message: owned("insufficient permissions") }),
        Err(a) => Err(ApiError { status: 500, message: a.message() }),
    }
}

/// Name of a severity as the table prints it.
pub open spec fn severity_name(s: FindingSeverity) -> Seq<char> {
    match s {
        FindingSeverity::Blocker => "Blocker"@,
        FindingSeverity::Warning => "Warning"@,
        FindingSeverity::Info => "Info"@,
    }
}

/// Line of the table for one finding.
pub open spec fn finding_line(f: Finding) -> Seq<char> {
    "["@ + severity_name(f.severity) + "] "@ + f.title@ + " — "@ + f.message@
}

/// Lines of the assessment table: the overall score, the counts per severity, then one
/// line per finding.
pub open spec fn table_lines(out: AssessOutput) -> Seq<Seq<char>> {
    seq![
        "Overall score: "@ + decimal(out.scores.overall as nat),
        "Blockers: "@ + decimal(out.summary.blockers as nat) + "  Warnings: "@ + decimal(out.summary.warnings as nat)
            + "  Info: "@ + decimal(out.summary.info as nat),
    ] + out.findings@.map_values(|f: Finding| finding_line(f))
}

/// Lines of the assessment table the command line prints.
pub fn assessment_table(out: &AssessOutput) -> (r: Vec<String>)
    ensures
        strings_view(r@) == table_lines(*out),
{
    let mut lines: Vec<String> = Vec::new();
    let mut first = owned("Overall score: ");
    let o = decimal_text(out.scores.overall as u64);
    first.append(o.as_str());
    lines.push(first);
    let mut second = owned("Blockers: ");
    let b = decimal_text(out.summary.blockers as u64);
    second.append(b.as_str());
    second.append("  Warnings: ");
    let w = decimal_text(out.summary.warnings as u64);
    second.append(w.as_str());
    second.append("  Info: ");
    let n = decimal_text(out.summary.info as u64);
    second.append(n.as_str());
    lines.push(second);
    let ghost head = strings_view(lines@);
    let mut i: usize = 0;
    while i < out.findings.len()
        invariant
            i <= out.findings@.len(),
            head.len() == 2,
            strings_view(lines@) == head + out.findings@.take(i as int).map_values(|f: Finding| finding_line(f)),
        decreases out.findings@.len() - i,
    {
        let f = &out.findings[i];
        let mut line = owned("[");
        let name = match f.severity {
            FindingSeverity::Blocker => "Blocker",
            FindingSeverity::Warning => "Warning",
            FindingSeverity::Info => "Info",
        };
        line.append(name);
        line.append("] ");
        line.append(f.title.as_str());
        line.append(" — ");
        line.append(f.message.as_str());
        let ghost before = strings_view(lines@);
        lines.push(line);
        proof {
            assert(strings_view(lines@) =~= before.push(finding_line(*f)));
            assert(out.findings@.take(i + 1).map_values(|f: Finding| finding_line(f)) =~= out.findings@.take(
                i as int,
            ).map_values(|f: Finding| finding_line(f)).push(finding_line(*f)));
        }
        i += 1;
    }
    proof {
        assert(out.findings@.take(out.findings@.len() as int) =~= out.findings@);
    }
    lines
}

} // verus!
