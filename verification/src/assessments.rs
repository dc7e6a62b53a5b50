//! Assessment resources: their list items, findings recovered from stored scans, the
//! order they are listed in, and the wait for an assessment triggered from the portal.

use vstd::prelude::*;

use crate::attribution::{sorted_distinct_texts, sorted_set_of};
use crate::compute::{last_info_index, lemma_last_info_index, AssessmentIndex, AssessmentNsInfo};
use crate::model::{count_severity, duplicate_findings, findings_view, AssessmentScores, Finding, FindingSeverity, FindingSummary, FindingView};
use crate::refs::vec_contains_str;
use crate::rollouts::{int_text, long_to_text};
use crate::sorting::{apply_order, keys_view, stable_order, stable_sorted};
use crate::text::{owned, str_eq, strings_view};

verus! {

/// Observed state of an assessment resource.
#[derive(Debug)]
pub struct AssessmentStatusView {
    pub phase: String,
    pub readiness_score: u8,
    pub sidecar_dependency_score: u8,
    pub traffic_compatibility_score: u8,
    pub overall_score: u8,
    pub findings: Vec<Finding>,
    pub summary: Option<FindingSummary>,
}

/// An assessment the operator completed.
#[derive(Debug)]
pub struct CompletedAssessment {
    pub name: String,
    pub namespace: String,
    pub status: AssessmentStatusView,
}

impl CompletedAssessment {
    /// Scores the operator reported.
    pub fn scores(&self) -> (r: AssessmentScores)
        ensures
            r.readiness == self.status.readiness_score,
            r.sidecar_dependency == self.status.sidecar_dependency_score,
            r.traffic_compatibility == self.status.traffic_compatibility_score,
            r.overall == self.status.overall_score,
    {
        AssessmentScores {
            readiness: self.status.readiness_score,
            sidecar_dependency: self.status.sidecar_dependency_score,
            traffic_compatibility: self.status.traffic_compatibility_score,
            overall: self.status.overall_score,
        }
    }

    /// Summary the operator reported, else the one counted from the findings.
    pub fn summary(&self) -> (r: FindingSummary)
        requires
            self.status.findings@.len() <= u32::MAX,
        ensures
            match self.status.summary {
                Some(s) => r == s,
                None => r.blockers == count_severity(self.status.findings@, FindingSeverity::Blocker)
                    && r.warnings == count_severity(self.status.findings@, FindingSeverity::Warning)
                    && r.info == count_severity(self.status.findings@, FindingSeverity::Info),
            },
    {
        match self.status.summary {
            Some(s) => s,
            None => FindingSummary::from_findings(self.status.findings.as_slice()),
        }
    }
}

/// Answer to a request to assess the cluster.
#[derive(Debug)]
pub struct AssessResponse {
    pub findings: Vec<Finding>,
    pub scores: AssessmentScores,
    pub summary: FindingSummary,
    pub application_count: usize,
    /// `crd` when the operator ran the assessment, `direct` when the portal ran it.
    pub trigger: String,
    pub assessment_name: Option<String>,
    pub assessment_namespace: Option<String>,
}

/// Answer for an assessment the operator completed: its findings, scores and summary, named
/// after the assessment resource.
pub fn crd_assess_response(completed: CompletedAssessment, application_count: usize) -> (r: AssessResponse)
    requires
        completed.status.findings@.len() <= u32::MAX,
    ensures
        r.findings == completed.status.findings,
        r.scores.readiness == completed.status.readiness_score,
        r.scores.sidecar_dependency == completed.status.sidecar_dependency_score,
        r.scores.traffic_compatibility == completed.status.traffic_compatibility_score,
        r.scores.overall == completed.status.overall_score,
        match completed.status.summary {
            Some(s) => r.summary == s,
            None => r.summary.blockers == count_severity(completed.status.findings@, FindingSeverity::Blocker)
                && r.summary.warnings == count_severity(completed.status.findings@, FindingSeverity::Warning)
                && r.summary.info == count_severity(completed.status.findings@, FindingSeverity::Info),
        },
        r.application_count == application_count,
        r.trigger@ == "crd"@,
        r.assessment_name == Some(completed.name),
        r.assessment_namespace == Some(completed.namespace),
{
    let scores = completed.scores();
    let summary = completed.summary();
    AssessResponse {
        findings: completed.status.findings,
        scores,
        summary,
        application_count,
        trigger: owned("crd"),
        assessment_name: Some(completed.name),
        assessment_namespace: Some(completed.namespace),
    }
}

/// Answer for an assessment the portal ran itself: the pipeline's findings, scores and
/// summary, with no assessment resource.
pub fn direct_assess_response(result: crate::inventory::AssessmentResult, application_count: usize) -> (r: AssessResponse)
    ensures
        r.findings == result.findings,
        r.scores == result.scores,
        r.summary == result.summary,
        r.application_count == application_count,
        r.trigger@ == "direct"@,
        r.assessment_name is None,
        r.assessment_namespace is None,
{
    AssessResponse {
        findings: result.findings,
        scores: result.scores,
        summary: result.summary,
        application_count,
        trigger: owned("direct"),
        assessment_name: None,
        assessment_namespace: None,
    }
}

/// One assessment of the list.
#[derive(Debug)]
pub struct AssessmentListItem {
    pub name: String,
    pub namespace: String,
    pub phase: String,
    pub scores: AssessmentScores,
    pub summary: FindingSummary,
    pub findings: Vec<Finding>,
}

/// Whether a summary counts nothing.
pub open spec fn summary_empty(s: FindingSummary) -> bool {
    s.blockers == 0 && s.warnings == 0 && s.info == 0
}

/// List item of an assessment with a name and a status; its namespace defaults to
/// `default` and its summary to nothing counted.
pub fn assessment_to_item(name: Option<String>, namespace: Option<String>, status: Option<AssessmentStatusView>) -> (r: Option<AssessmentListItem>)
    ensures
        (name is Some && status is Some) <==> r is Some,
        r matches Some(item) ==> {
            let st = status->0;
            &&& item.name == name->0
            &&& item.namespace@ == match namespace {
                Some(n) => n@,
                None => "default"@,
            }
            &&& item.phase == st.phase
            &&& item.scores.readiness == st.readiness_score
            &&& item.scores.sidecar_dependency == st.sidecar_dependency_score
            &&& item.scores.traffic_compatibility == st.traffic_compatibility_score
            &&& item.scores.overall == st.overall_score
            &&& item.summary == match st.summary {
                Some(s) => s,
                None => FindingSummary { blockers: 0, warnings: 0, info: 0 },
            }
            &&& item.findings == st.findings
        },
{
    let name = match name {
        Some(n) => n,
        None => return None,
    };
    let st = match status {
        Some(s) => s,
        None => return None,
    };
    let namespace = match namespace {
        Some(n) => n,
        None => owned("default"),
    };
    let summary = match st.summary {
        Some(s) => s,
        None => FindingSummary { blockers: 0, warnings: 0, info: 0 },
    };
    Some(AssessmentListItem {
        name,
        namespace,
        phase: st.phase,
        scores: AssessmentScores {
            readiness: st.readiness_score,
            sidecar_dependency: st.sidecar_dependency_score,
            traffic_compatibility: st.traffic_compatibility_score,
            overall: st.overall_score,
        },
        summary,
        findings: st.findings,
    })
}

/// An item whose resource reported no findings takes those of the latest stored scan of
/// that assessment, and its summary too when it counts nothing; an item with findings, or
/// without a stored scan, stays as it is.
pub fn with_stored_findings(item: AssessmentListItem, stored: Option<(Vec<Finding>, FindingSummary)>) -> (r: AssessmentListItem)
    ensures
        r.name == item.name,
        r.namespace == item.namespace,
        r.phase == item.phase,
        r.scores == item.scores,
        match stored {
            Some((fs, sum)) => if item.findings@.len() == 0 {
                r.findings == fs && r.summary == (if summary_empty(item.summary) {
                    sum
                } else {
                    item.summary
                })
            } else {
                r.findings == item.findings && r.summary == item.summary
            },
            None => r.findings == item.findings && r.summary == item.summary,
        },
{
    if item.findings.len() != 0 {
        return item;
    }
    match stored {
        Some((fs, sum)) => {
            let empty = item.summary.blockers == 0 && item.summary.warnings == 0 && item.summary.info == 0;
            AssessmentListItem {
                name: item.name,
                namespace: item.namespace,
                phase: item.phase,
                scores: item.scores,
                summary: if empty { sum } else { item.summary },
                findings: fs,
            }
        },
        None => item,
    }
}

/// Sort keys of items: namespace, then name.
pub open spec fn item_keys(items: Seq<AssessmentListItem>) -> Seq<(Seq<char>, Seq<char>)> {
    items.map_values(|i: AssessmentListItem| (i.namespace@, i.name@))
}

/// Items in ascending order of namespace, then name.
pub fn sort_assessment_items(items: Vec<AssessmentListItem>) -> (r: Vec<AssessmentListItem>)
    ensures
        exists|ord: Seq<usize>|
            #![trigger stable_sorted(item_keys(items@), ord)]
            stable_sorted(item_keys(items@), ord) && r@.len() == items@.len() && forall|t: int|
                0 <= t < r@.len() ==> #[trigger] r@[t] == items@[ord[t] as int],
{
    let mut keys: Vec<(String, String)> = Vec::new();
    let mut j: usize = 0;
    while j < items.len()
        invariant
            j <= items@.len(),
            keys@.len() == j,
            forall|q: int| 0 <= q < j ==> (#[trigger] keys@[q]).0@ == items@[q].namespace@ && keys@[q].1@ == items@[q].name@,
        decreases items@.len() - j,
    {
        keys.push((items[j].namespace.clone(), items[j].name.clone()));
        j += 1;
    }
    assert(keys_view(keys@) =~= item_keys(items@));
    let ord = stable_order(&keys);
    let ghost iv = items@;
    let r = apply_order(items, &ord);
    assert(stable_sorted(item_keys(iv), ord@));
    r
}

/// Where a triggered assessment stands.
#[derive(Clone, Copy, Debug, PartialEq, Eq, Structural)]
pub enum AssessmentPoll {
    /// The operator completed it.
    Completed,
    /// The operator reported a failure.
    Failed,
    /// The wait is over without an outcome.
    TimedOut,
    /// Look again later.
    Wait,
}

/// Where a triggered assessment stands, from its phase when it has a status and whether
/// the wait is over: completion and failure decide before the deadline does.
pub fn assessment_poll(phase: Option<&str>, deadline_passed: bool) -> (r: AssessmentPoll)
    ensures
        r == (match phase {
            Some(p) => if p@ == "Completed"@ {
                AssessmentPoll::Completed
            } else if p@ == "Failed"@ {
                AssessmentPoll::Failed
            } else if deadline_passed {
                AssessmentPoll::TimedOut
            } else {
                AssessmentPoll::Wait
            },
            None => if deadline_passed {
                AssessmentPoll::TimedOut
            } else {
                AssessmentPoll::Wait
            },
        }),
{
    match phase {
        Some(p) => {
            if str_eq(p, "Completed") {
                return AssessmentPoll::Completed;
            }
            if str_eq(p, "Failed") {
                return AssessmentPoll::Failed;
            }
        },
        None => {},
    }
    if deadline_passed {
        AssessmentPoll::TimedOut
    } else {
        AssessmentPoll::Wait
    }
}

/// Message of an assessment that did not complete within ten minutes.
pub fn assessment_timeout_message(namespace: &str, name: &str) -> (r: String)
    ensures
        r@ == "timed out after 600s waiting for AmbientAssessment "@ + namespace@ + "/"@ + name@ + " to complete"@,
{
    let mut m = owned("timed out after 600s waiting for AmbientAssessment ");
    m.append(namespace);
    m.append("/");
    m.append(name);
    m.append(" to complete");
    m
}

/// Name of an assessment triggered from the portal at a time, in seconds since the epoch.
pub fn portal_assessment_name(timestamp: i64) -> (r: String)
    ensures
        r@ == "portal-assessment-"@ + int_text(timestamp as int),
{
    let mut m = owned("portal-assessment-");
    let t = long_to_text(timestamp);
    m.append(t.as_str());
    m
}

/// Namespace the portal creates assessments in: the configured one, else `ambientor-system`.
pub fn install_namespace(setting: Option<String>) -> (r: String)
    ensures
        r@ == match setting {
            Some(s) => s@,
            None => "ambientor-system"@,
        },
{
    match setting {
        Some(s) => s,
        None => owned("ambientor-system"),
    }
}

/// Whether the API assesses inline instead of through an assessment resource: the setting
/// is `1`, `true` or `yes`.
pub fn direct_assess_enabled(setting: Option<&str>) -> (r: bool)
    ensures
        r == match setting {
            Some(s) => s@ == "1"@ || s@ == "true"@ || s@ == "yes"@,
            None => false,
        },
{
    match setting {
        Some(s) => str_eq(s, "1") || str_eq(s, "true") || str_eq(s, "yes"),
        None => false,
    }
}

/// An assessment resource as listed.
#[derive(Debug)]
pub struct AssessmentResource {
    pub name: Option<String>,
    pub namespace: Option<String>,
    pub status: Option<AssessmentStatusView>,
}

/// Name an assessment is known by: `unknown` when it has none.
pub open spec fn resource_name(a: AssessmentResource) -> Seq<char> {
    match a.name {
        Some(n) => n@,
        None => "unknown"@,
    }
}

/// Stored findings recorded for an assessment name: the first pair naming it.
pub open spec fn override_for(ov: Seq<(String, Vec<Finding>)>, name: Seq<char>) -> Option<Seq<FindingView>>
    decreases ov.len(),
{
    if ov.len() == 0 {
        None
    } else if ov[0].0@ == name {
        Some(findings_view(ov[0].1@))
    } else {
        override_for(ov.subrange(1, ov.len() as int), name)
    }
}

/// Findings an assessment with a status stands for: its own, or, when it reports none, the
/// stored ones recorded for its name.
pub open spec fn effective_findings(a: AssessmentResource, ov: Seq<(String, Vec<Finding>)>) -> Seq<FindingView> {
    let st = a.status->0;
    if st.findings@.len() > 0 {
        findings_view(st.findings@)
    } else {
        match override_for(ov, resource_name(a)) {
            Some(v) => v,
            None => Seq::empty(),
        }
    }
}

/// Namespaces named by findings, in order, with repetitions.
pub open spec fn finding_namespaces(fs: Seq<FindingView>) -> Seq<Seq<char>>
    decreases fs.len(),
{
    if fs.len() == 0 {
        Seq::empty()
    } else {
        let p = finding_namespaces(fs.drop_last());
        match fs.last().namespace {
            Some(n) => p.push(n),
            None => p,
        }
    }
}

/// Namespaces an assessment covers: those its findings name, else its own namespace.
pub open spec fn namespace_items(a: AssessmentResource, ov: Seq<(String, Vec<Finding>)>) -> Seq<Seq<char>> {
    let xs = finding_namespaces(effective_findings(a, ov));
    if xs.len() > 0 {
        xs
    } else {
        match a.namespace {
            Some(n) => seq![n@],
            None => Seq::empty(),
        }
    }
}

/// Whether some finding is a blocker.
pub open spec fn has_blocker_in(fs: Seq<FindingView>) -> bool {
    exists|i: int| 0 <= i < fs.len() && fs[i].severity == FindingSeverity::Blocker
}

/// Whether an entry is what an assessment says of one of its namespaces.
pub open spec fn entry_of(e: AssessmentNsInfo, a: AssessmentResource, ov: Seq<(String, Vec<Finding>)>) -> bool {
    &&& e.name@ == resource_name(a)
    &&& findings_view(e.findings@) == effective_findings(a, ov)
    &&& e.has_blocker == has_blocker_in(effective_findings(a, ov))
    &&& e.scanned == (a.status->0.phase@ == "Completed"@ || a.status->0.phase@ == "Ready"@)
}

/// Namespaces of entries.
pub open spec fn entry_namespaces(g: Seq<AssessmentNsInfo>) -> Seq<Seq<char>> {
    g.map_values(|e: AssessmentNsInfo| e.namespace@)
}

/// Whether `g` is the entries of one assessment: none without a status, else one per
/// namespace it covers, in ascending order.
pub open spec fn group_of(g: Seq<AssessmentNsInfo>, a: AssessmentResource, ov: Seq<(String, Vec<Finding>)>) -> bool {
    if a.status is None {
        g.len() == 0
    } else {
        &&& sorted_set_of(entry_namespaces(g), namespace_items(a, ov))
        &&& forall|i: int| 0 <= i < g.len() ==> entry_of(#[trigger] g[i], a, ov)
    }
}

/// Entries of groups, one group after the other.
pub open spec fn concat_groups(gs: Seq<Seq<AssessmentNsInfo>>) -> Seq<AssessmentNsInfo>
    decreases gs.len(),
{
    if gs.len() == 0 {
        Seq::empty()
    } else {
        concat_groups(gs.drop_last()) + gs.last()
    }
}

fn find_override<'a>(ov: &'a Vec<(String, Vec<Finding>)>, name: &str) -> (r: Option<&'a Vec<Finding>>)
    ensures
        match r {
            Some(v) => override_for(ov@, name@) == Some(findings_view(v@)),
            None => override_for(ov@, name@) is None,
        },
{
    let mut i: usize = 0;
    proof {
        assert(ov@.subrange(0, ov@.len() as int) =~= ov@);
    }
    while i < ov.len()
        invariant
            i <= ov@.len(),
            override_for(ov@, name@) == override_for(ov@.subrange(i as int, ov@.len() as int), name@),
        decreases ov@.len() - i,
    {
        let ghost rest = ov@.subrange(i as int, ov@.len() as int);
        proof {
            assert(rest[0] == ov@[i as int]);
            assert(rest.subrange(1, rest.len() as int) =~= ov@.subrange(i + 1, ov@.len() as int));
        }
        if str_eq(ov[i].0.as_str(), name) {
            return Some(&ov[i].1);
        }
        i += 1;
    }
    None
}

fn any_blocker(fs: &Vec<Finding>) -> (r: bool)
    ensures
        r == has_blocker_in(findings_view(fs@)),
{
    let mut i: usize = 0;
    while i < fs.len()
        invariant
            i <= fs@.len(),
            forall|j: int| 0 <= j < i ==> fs@[j].severity != FindingSeverity::Blocker,
        decreases fs@.len() - i,
    {
        if fs[i].severity == FindingSeverity::Blocker {
            assert(findings_view(fs@)[i as int].severity == FindingSeverity::Blocker);
            return true;
        }
        i += 1;
    }
    assert(!has_blocker_in(findings_view(fs@))) by {
        if has_blocker_in(findings_view(fs@)) {
            let j = choose|j: int| 0 <= j < findings_view(fs@).len() && findings_view(fs@)[j].severity == FindingSeverity::Blocker;
            assert(fs@[j].severity == FindingSeverity::Blocker);
        }
    }
    false
}

/// Distinct namespaces named by findings, in first-seen order.
fn distinct_finding_namespaces(fs: &Vec<Finding>) -> (r: Vec<String>)
    ensures
        strings_view(r@).no_duplicates(),
        forall|x: Seq<char>| strings_view(r@).contains(x) <==> finding_namespaces(findings_view(fs@)).contains(x),
{
    let mut out: Vec<String> = Vec::new();
    let mut i: usize = 0;
    while i < fs.len()
        invariant
            i <= fs@.len(),
            strings_view(out@).no_duplicates(),
            forall|x: Seq<char>| strings_view(out@).contains(x) <==> finding_namespaces(findings_view(fs@.take(i as int))).contains(x),
        decreases fs@.len() - i,
    {
        let ghost prev = fs@.take(i as int);
        proof {
            assert(fs@.take(i + 1).drop_last() =~= prev);
            assert(findings_view(fs@.take(i + 1)).drop_last() =~= findings_view(prev));
            assert(findings_view(fs@.take(i + 1)).last() == fs@[i as int]@);
        }
        match &fs[i].namespace {
            Some(ns) => {
                let ghost before = strings_view(out@);
                let found = vec_contains_str(&out, ns.as_str());
                if !found {
                    out.push(ns.clone());
                    proof {
                        assert(strings_view(out@) =~= before.push(ns@));
                        assert forall|a: int, b: int| 0 <= a < b < strings_view(out@).len() implies strings_view(out@)[a]
                            != strings_view(out@)[b] by {
                            if b == before.len() {
                                assert(before.contains(before[a]));
                            }
                        }
                    }
                }
                proof {
                    if found {
                        assert(strings_view(out@) == before);
                    }
                    assert(forall|k: int| 0 <= k < before.len() ==> strings_view(out@)[k] == before[k]);
                    let fv = findings_view(fs@.take(i + 1));
                    assert(finding_namespaces(fv) =~= finding_namespaces(findings_view(prev)).push(ns@));
                    assert forall|x: Seq<char>| strings_view(out@).contains(x) <==> finding_namespaces(fv).contains(x) by {
                        if x == ns@ {
                            assert(finding_namespaces(fv).last() == ns@);
                            if !before.contains(x) {
                                assert(strings_view(out@).last() == x);
                            }
                        } else {
                            if strings_view(out@).contains(x) {
                                let k = choose|k: int| 0 <= k < strings_view(out@).len() && strings_view(out@)[k] == x;
                                assert(k < before.len());
                                assert(before[k] == x);
                                assert(before.contains(x));
                                let m = choose|m: int| 0 <= m < finding_namespaces(findings_view(prev)).len()
                                    && finding_namespaces(findings_view(prev))[m] == x;
                                assert(finding_namespaces(fv)[m] == x);
                            }
                            if finding_namespaces(fv).contains(x) {
                                let m = choose|m: int| 0 <= m < finding_namespaces(fv).len() && finding_namespaces(fv)[m] == x;
                                assert(m < finding_namespaces(findings_view(prev)).len());
                                assert(finding_namespaces(findings_view(prev))[m] == x);
                                assert(finding_namespaces(findings_view(prev)).contains(x));
                                assert(before.contains(x));
                                let k = choose|k: int| 0 <= k < before.len() && before[k] == x;
                                assert(strings_view(out@)[k] == x);
                            }
                        }
                    }
                }
            },
            None => {
                proof {
                    assert(finding_namespaces(findings_view(fs@.take(i + 1))) =~= finding_namespaces(findings_view(prev)));
                }
            },
        }
        i += 1;
    }
    proof {
        assert(fs@.take(fs@.len() as int) =~= fs@);
    }
    out
}

/// Entries of one assessment with a status: one per namespace it covers, in ascending
/// order, each with its name, effective findings, blocker flag and scan state.
fn assessment_group(a: &AssessmentResource, ov: &Vec<(String, Vec<Finding>)>) -> (r: Vec<AssessmentNsInfo>)
    requires
        a.status is Some,
    ensures
        group_of(r@, *a, ov@),
{
    let st = match &a.status {
        Some(st) => st,
        None => {
            assert(false);
            return Vec::new();
        },
    };
    let name = match &a.name {
        Some(n) => n.clone(),
        None => owned("unknown"),
    };
    let scanned = str_eq(st.phase.as_str(), "Completed") || str_eq(st.phase.as_str(), "Ready");
    let findings: Vec<Finding> = if st.findings.len() > 0 {
        duplicate_findings(&st.findings)
    } else {
        match find_override(ov, name.as_str()) {
            Some(v) => duplicate_findings(v),
            None => Vec::new(),
        }
    };
    assert(findings_view(findings@) == effective_findings(*a, ov@));
    let mut nss = distinct_finding_namespaces(&findings);
    let ghost items = namespace_items(*a, ov@);
    let ghost nss0 = strings_view(nss@);
    let ghost xs0 = finding_namespaces(effective_findings(*a, ov@));
    proof {
        if nss0.len() > 0 {
            assert(nss0.contains(nss0[0]));
            assert(xs0.contains(nss0[0]));
            assert(xs0.len() > 0);
            assert(items == xs0);
        }
    }
    if nss.len() == 0 {
        proof {
            let xs = finding_namespaces(effective_findings(*a, ov@));
            if xs.len() > 0 {
                assert(xs.contains(xs[0]));
                assert(strings_view(nss@).contains(xs[0]));
            }
        }
        match &a.namespace {
            Some(n) => {
                nss.push(n.clone());
                proof {
                    assert(strings_view(nss@) =~= seq![n@]);
                }
            },
            None => {},
        }
    }
    proof {
        if nss0.len() == 0 {
            assert(xs0.len() == 0);
            assert(items == match a.namespace {
                Some(n) => seq![n@],
                None => Seq::<Seq<char>>::empty(),
            });
            if a.namespace is Some {
                assert(strings_view(nss@) =~= seq![a.namespace->0@]);
            } else {
                assert(strings_view(nss@) =~= Seq::<Seq<char>>::empty());
            }
            assert(strings_view(nss@) == items);
        } else {
            assert(strings_view(nss@) == nss0);
        }
    }
    assert(strings_view(nss@).no_duplicates());
    assert(forall|x: Seq<char>| strings_view(nss@).contains(x) <==> items.contains(x));
    let sorted = sorted_distinct_texts(&nss);
    let has_blocker = any_blocker(&findings);
    let mut out: Vec<AssessmentNsInfo> = Vec::new();
    let mut i: usize = 0;
    while i < sorted.len()
        invariant
            i <= sorted@.len(),
            out@.len() == i,
            forall|k: int| 0 <= k < i ==> (#[trigger] out@[k]).namespace == sorted@[k],
            forall|k: int| 0 <= k < i ==> entry_of(#[trigger] out@[k], *a, ov@),
            findings_view(findings@) == effective_findings(*a, ov@),
            has_blocker == has_blocker_in(effective_findings(*a, ov@)),
            name@ == resource_name(*a),
            scanned == (a.status->0.phase@ == "Completed"@ || a.status->0.phase@ == "Ready"@),
        decreases sorted@.len() - i,
    {
        let fs = duplicate_findings(&findings);
        out.push(AssessmentNsInfo {
            namespace: sorted[i].clone(),
            name: name.clone(),
            findings: fs,
            has_blocker,
            scanned,
        });
        i += 1;
    }
    proof {
        assert(entry_namespaces(out@) =~= strings_view(sorted@));
        assert forall|x: Seq<char>| strings_view(sorted@).contains(x) <==> items.contains(x) by {
            assert(strings_view(sorted@).contains(x) <==> strings_view(nss@).contains(x));
        }
    }
    out
}

/// Assessment information per namespace, from the listed assessments in order (so that a
/// later assessment's entry for a namespace replaces an earlier one): each assessment with
/// a status gives one entry per namespace it covers. An assessment that reports no
/// findings stands for the stored ones recorded for its name.
pub fn assessment_index(resources: &Vec<AssessmentResource>, overrides: &Vec<(String, Vec<Finding>)>) -> (r: AssessmentIndex)
    ensures
        exists|gs: Seq<Seq<AssessmentNsInfo>>|
            #![trigger concat_groups(gs)]
            gs.len() == resources@.len() && (forall|k: int| 0 <= k < gs.len() ==> group_of(#[trigger] gs[k], resources@[k], overrides@))
                && r.entries@ == concat_groups(gs),
{
    let mut entries: Vec<AssessmentNsInfo> = Vec::new();
    let ghost mut gs: Seq<Seq<AssessmentNsInfo>> = Seq::empty();
    let mut i: usize = 0;
    while i < resources.len()
        invariant
            i <= resources@.len(),
            gs.len() == i,
            forall|k: int| 0 <= k < gs.len() ==> group_of(#[trigger] gs[k], resources@[k], overrides@),
            entries@ == concat_groups(gs),
        decreases resources@.len() - i,
    {
        let a = &resources[i];
        let ghost old_gs = gs;
        if a.status.is_some() {
            let mut g = assessment_group(a, overrides);
            let ghost gv = g@;
            let ghost before = entries@;
            entries.append(&mut g);
            proof {
                gs = gs.push(gv);
                assert(gs.drop_last() =~= old_gs);
                assert(entries@ =~= before + gv);
                assert(concat_groups(gs) == concat_groups(gs.drop_last()) + gs.last());
            }
        } else {
            proof {
                let e: Seq<AssessmentNsInfo> = Seq::empty();
                gs = gs.push(e);
                assert(gs.drop_last() =~= old_gs);
                assert(concat_groups(gs) == concat_groups(gs.drop_last()) + e);
                assert(concat_groups(gs.drop_last()) + e =~= concat_groups(gs.drop_last()));
            }
        }
        proof {
            assert forall|k: int| 0 <= k < gs.len() implies group_of(#[trigger] gs[k], resources@[k], overrides@) by {
                if k < gs.len() - 1 {
                    assert(gs[k] == gs.drop_last()[k]);
                }
            }
        }
        i += 1;
    }
    AssessmentIndex { entries }
}

proof fn lemma_last_info_concat(a: Seq<AssessmentNsInfo>, b: Seq<AssessmentNsInfo>, x: Seq<char>)
    ensures
        last_info_index(a + b, x) == match last_info_index(b, x) {
            Some(j) => Some(a.len() + j),
            None => last_info_index(a, x),
        },
    decreases b.len(),
{
    if b.len() == 0 {
        assert(a + b =~= a);
    } else {
        assert((a + b).drop_last() =~= a + b.drop_last());
        assert((a + b).last() == b.last());
        lemma_last_info_concat(a, b.drop_last(), x);
    }
}

proof fn lemma_group_lookup(g: Seq<AssessmentNsInfo>, a: AssessmentResource, ov: Seq<(String, Vec<Finding>)>, x: Seq<char>)
    requires
        a.status is Some,
        group_of(g, a, ov),
    ensures
        (last_info_index(g, x) is Some) == namespace_items(a, ov).contains(x),
        last_info_index(g, x) matches Some(i) ==> 0 <= i < g.len() && entry_of(g[i], a, ov),
{
    lemma_last_info_index(g, x);
    match last_info_index(g, x) {
        Some(i) => {
            assert(entry_namespaces(g)[i] == x);
            assert(entry_namespaces(g).contains(x));
        },
        None => {
            if namespace_items(a, ov).contains(x) {
                assert(entry_namespaces(g).contains(x));
                let k = choose|k: int| 0 <= k < entry_namespaces(g).len() && entry_namespaces(g)[k] == x;
                assert(g[k].namespace@ == x);
            }
        },
    }
}

/// Looking a namespace up in the index gives what the last listed assessment that covers
/// it says of it; no entry means no assessment with a status covers it.
pub proof fn law_index_lookup_is_latest_assessment(
    gs: Seq<Seq<AssessmentNsInfo>>,
    res: Seq<AssessmentResource>,
    ov: Seq<(String, Vec<Finding>)>,
    x: Seq<char>,
)
    requires
        gs.len() == res.len(),
        forall|k: int| 0 <= k < gs.len() ==> group_of(#[trigger] gs[k], res[k], ov),
    ensures
        match last_info_index(concat_groups(gs), x) {
            Some(i) => exists|k: int|
                0 <= k < res.len() && res[k].status is Some && namespace_items(res[k], ov).contains(x) && entry_of(
                    #[trigger] concat_groups(gs)[i],
                    res[k],
                    ov,
                ) && forall|m: int| k < m < res.len() ==> res[m].status is None || !namespace_items(res[m], ov).contains(x),
            None => forall|k: int|
                0 <= k < res.len() ==> res[k].status is None || !(#[trigger] namespace_items(res[k], ov)).contains(x),
        },
    decreases gs.len(),
{
    if gs.len() > 0 {
        let n = gs.len() - 1;
        let p = gs.drop_last();
        let rp = res.drop_last();
        assert forall|k: int| 0 <= k < p.len() implies group_of(#[trigger] p[k], rp[k], ov) by {
            assert(p[k] == gs[k]);
            assert(rp[k] == res[k]);
        }
        law_index_lookup_is_latest_assessment(p, rp, ov, x);
        lemma_last_info_concat(concat_groups(p), gs.last(), x);
        assert(group_of(gs[n], res[n], ov));
        if res[n].status is Some {
            lemma_group_lookup(gs[n], res[n], ov, x);
        } else {
            assert(gs[n].len() == 0);
            lemma_last_info_index(gs[n], x);
        }
        match last_info_index(gs.last(), x) {
            Some(j) => {
                let i = concat_groups(p).len() + j;
                assert(concat_groups(gs) == concat_groups(p) + gs.last());
                assert(concat_groups(gs)[i] == gs.last()[j]);
                assert(res[n].status is Some);
            },
            None => {
                assert(concat_groups(gs) == concat_groups(p) + gs.last());
                match last_info_index(concat_groups(p), x) {
                    Some(i) => {
                        lemma_last_info_index(concat_groups(p), x);
                        assert(concat_groups(gs)[i] == concat_groups(p)[i]);
                        let k = choose|k: int|
                            0 <= k < rp.len() && rp[k].status is Some && namespace_items(rp[k], ov).contains(x) && entry_of(
                                #[trigger] concat_groups(p)[i],
                                rp[k],
                                ov,
                            ) && forall|m: int| k < m < rp.len() ==> rp[m].status is None || !namespace_items(rp[m], ov).contains(x);
                        assert(res[k] == rp[k]);
                        assert forall|m: int| k < m < res.len() implies res[m].status is None || !namespace_items(res[m], ov).contains(x) by {
                            if m < n {
                                assert(res[m] == rp[m]);
                            }
                        }
                    },
                    None => {
                        assert forall|k: int| 0 <= k < res.len() implies res[k].status is None || !(#[trigger] namespace_items(res[k], ov)).contains(x) by {
                            if k < n {
                                assert(res[k] == rp[k]);
                            }
                        }
                    },
                }
            },
        }
    }
}

/// Names of the assessments whose status reports no findings, in order (unnamed ones are
/// skipped): those whose findings are looked up in the stored scans.
pub fn empty_findings_assessment_names(resources: &Vec<AssessmentResource>) -> (r: Vec<String>)
    ensures
        strings_view(r@) == empty_findings_names(resources@),
{
    let mut out: Vec<String> = Vec::new();
    let mut i: usize = 0;
    while i < resources.len()
        invariant
            i <= resources@.len(),
            strings_view(out@) == empty_findings_names(resources@.take(i as int)),
        decreases resources@.len() - i,
    {
        let a = &resources[i];
        let ghost before = strings_view(out@);
        proof {
            assert(resources@.take(i + 1).drop_last() =~= resources@.take(i as int));
        }
        match (&a.name, &a.status) {
            (Some(n), Some(st)) => {
                if st.findings.len() == 0 {
                    out.push(n.clone());
                    proof {
                        assert(strings_view(out@) =~= before.push(n@));
                    }
                }
            },
            _ => {},
        }
        i += 1;
    }
    proof {
        assert(resources@.take(resources@.len() as int) =~= resources@);
    }
    out
}

/// Names of the named assessments with a status that reports no findings, in order.
pub open spec fn empty_findings_names(rs: Seq<AssessmentResource>) -> Seq<Seq<char>>
    decreases rs.len(),
{
    if rs.len() == 0 {
        Seq::empty()
    } else {
        let p = empty_findings_names(rs.drop_last());
        let a = rs.last();
        if a.name is Some && a.status is Some && a.status->0.findings@.len() == 0 {
            p.push(a.name->0@)
        } else {
            p
        }
    }
}

/// Pairs of a name and its stored findings, for the first `n` names, when there are
/// stored findings and they hold any.
pub open spec fn kept_overrides(names: Seq<String>, stored: Seq<Option<Vec<Finding>>>, n: int) -> Seq<(String, Vec<Finding>)>
    decreases n,
{
    if n <= 0 {
        Seq::empty()
    } else {
        let p = kept_overrides(names, stored, n - 1);
        match stored[n - 1] {
            Some(v) => if v@.len() > 0 {
                p.push((names[n - 1], v))
            } else {
                p
            },
            None => p,
        }
    }
}

/// Stored findings to stand for the assessments of `names`: for each name, in order, the
/// findings of its latest stored scan when there is one and it holds any.
pub fn findings_overrides(names: &Vec<String>, stored: Vec<Option<Vec<Finding>>>) -> (r: Vec<(String, Vec<Finding>)>)
    requires
        stored@.len() == names@.len(),
    ensures
        r@ == kept_overrides(names@, stored@, names@.len() as int),
{
    let ghost olds = stored@;
    let mut rest = stored;
    let mut out: Vec<(String, Vec<Finding>)> = Vec::new();
    let mut i: usize = 0;
    while rest.len() > 0
        invariant
            i + rest@.len() == names@.len(),
            names@.len() == names.len(),
            olds.len() == names@.len(),
            rest@ == olds.subrange(i as int, olds.len() as int),
            out@ == kept_overrides(names@, olds, i as int),
        decreases rest@.len(),
    {
        let x = rest.remove(0);
        proof {
            assert(x == olds[i as int]);
            assert(rest@ =~= olds.subrange(i + 1, olds.len() as int));
        }
        match x {
            Some(v) => {
                if v.len() > 0 {
                    out.push((names[i].clone(), v));
                }
            },
            None => {},
        }
        i += 1;
    }
    out
}

} // verus!
