//! Category scores (0-100) from findings.

use vstd::prelude::*;

use crate::model::{AssessmentScores, Finding, FindingCategory, FindingSeverity};

verus! {

/// The three scored areas of an assessment.
#[derive(Clone, Copy, Debug, PartialEq, Eq, Structural)]
pub enum ScoreGroup {
    /// Readiness and platform findings.
    Readiness,
    /// Sidecar dependency findings.
    Sidecar,
    /// Traffic compatibility findings.
    Traffic,
}

/// Whether findings of a category count towards a group.
pub open spec fn in_group(c: FindingCategory, g: ScoreGroup) -> bool {
    match g {
        ScoreGroup::Readiness => c == FindingCategory::Readiness || c == FindingCategory::Platform,
        ScoreGroup::Sidecar => c == FindingCategory::SidecarDependency,
        ScoreGroup::Traffic => c == FindingCategory::TrafficCompatibility,
    }
}

/// Points one finding of a severity takes off its group's score.
pub open spec fn severity_penalty(s: FindingSeverity) -> int {
    match s {
        FindingSeverity::Blocker => 40,
        FindingSeverity::Warning => 15,
        FindingSeverity::Info => 5,
    }
}

/// Total penalty of the findings of a group.
pub open spec fn group_penalty(s: Seq<Finding>, g: ScoreGroup) -> int
    decreases s.len(),
{
    if s.len() == 0 {
        0
    } else {
        group_penalty(s.drop_last(), g) + if in_group(s.last().category, g) {
            severity_penalty(s.last().severity)
        } else {
            0
        }
    }
}

/// Number of findings in a group.
pub open spec fn group_count(s: Seq<Finding>, g: ScoreGroup) -> nat
    decreases s.len(),
{
    if s.len() == 0 {
        0
    } else {
        group_count(s.drop_last(), g) + if in_group(s.last().category, g) {
            1nat
        } else {
            0nat
        }
    }
}

/// Score of a group: 100 when it has no finding, else 100 minus the penalties, at least 0.
pub open spec fn group_score(s: Seq<Finding>, g: ScoreGroup) -> int {
    if group_count(s, g) == 0 {
        100
    } else if group_penalty(s, g) >= 100 {
        0
    } else {
        100 - group_penalty(s, g)
    }
}

/// Scores of all groups, and their mean (rounded down) as the overall score.
pub open spec fn spec_scores(s: Seq<Finding>) -> (int, int, int, int) {
    let r = group_score(s, ScoreGroup::Readiness);
    let d = group_score(s, ScoreGroup::Sidecar);
    let t = group_score(s, ScoreGroup::Traffic);
    (r, d, t, (r + d + t) / 3)
}

pub proof fn lemma_group_penalty_nonneg(s: Seq<Finding>, g: ScoreGroup)
    ensures
        group_penalty(s, g) >= 0,
        group_penalty(s, g) >= 5 * group_count(s, g),
    decreases s.len(),
{
    if s.len() > 0 {
        lemma_group_penalty_nonneg(s.drop_last(), g);
    }
}

fn category_in_group(c: FindingCategory, g: ScoreGroup) -> (r: bool)
    ensures
        r == in_group(c, g),
{
    match g {
        ScoreGroup::Readiness => match c {
            FindingCategory::Readiness | FindingCategory::Platform => true,
            _ => false,
        },
        ScoreGroup::Sidecar => match c {
            FindingCategory::SidecarDependency => true,
            _ => false,
        },
        ScoreGroup::Traffic => match c {
            FindingCategory::TrafficCompatibility => true,
            _ => false,
        },
    }
}

/// Score of one group of findings.
pub fn score_category(findings: &[Finding], g: ScoreGroup) -> (r: u8)
    ensures
        r == group_score(findings@, g),
{
    let mut score: i32 = 100;
    let mut relevant: usize = 0;
    let mut i: usize = 0;
    while i < findings.len()
        invariant
            i <= findings@.len(),
            relevant == group_count(findings@.take(i as int), g),
            relevant <= i,
            0 <= score <= 100,
            score == (if group_penalty(findings@.take(i as int), g) >= 100 {
                0
            } else {
                100 - group_penalty(findings@.take(i as int), g)
            }),
        decreases findings@.len() - i,
    {
        let ghost prefix = findings@.take(i as int);
        assert(findings@.take(i + 1).drop_last() =~= prefix);
        proof {
            lemma_group_penalty_nonneg(prefix, g);
        }
        let f = &findings[i];
        if category_in_group(f.category, g) {
            relevant += 1;
            let p: i32 = match f.severity {
                FindingSeverity::Blocker => 40,
                FindingSeverity::Warning => 15,
                FindingSeverity::Info => 5,
            };
            if score > p {
                score = score - p;
            } else {
                score = 0;
            }
        }
        i += 1;
    }
    assert(findings@.take(findings@.len() as int) =~= findings@);
    proof {
        lemma_group_penalty_nonneg(findings@, g);
    }
    if relevant == 0 {
        100
    } else {
        score as u8
    }
}

/// Compute category scores (0-100) from findings. Blockers cap the score.
pub fn compute_scores(findings: &[Finding]) -> (r: AssessmentScores)
    ensures
        r.readiness == spec_scores(findings@).0,
        r.sidecar_dependency == spec_scores(findings@).1,
        r.traffic_compatibility == spec_scores(findings@).2,
        r.overall == spec_scores(findings@).3,
{
    let readiness = score_category(findings, ScoreGroup::Readiness);
    let sidecar = score_category(findings, ScoreGroup::Sidecar);
    let traffic = score_category(findings, ScoreGroup::Traffic);
    let overall = (readiness as u16 + sidecar as u16 + traffic as u16) / 3;
    AssessmentScores {
        readiness,
        sidecar_dependency: sidecar,
        traffic_compatibility: traffic,
        overall: overall as u8,
    }
}

/// Every score lies between 0 and 100, and the overall score lies between the lowest and
/// the highest group score.
pub proof fn law_scores_are_percentages(s: Seq<Finding>)
    ensures
        0 <= spec_scores(s).0 <= 100,
        0 <= spec_scores(s).1 <= 100,
        0 <= spec_scores(s).2 <= 100,
        0 <= spec_scores(s).3 <= 100,
{
    lemma_group_penalty_nonneg(s, ScoreGroup::Readiness);
    lemma_group_penalty_nonneg(s, ScoreGroup::Sidecar);
    lemma_group_penalty_nonneg(s, ScoreGroup::Traffic);
}

pub proof fn lemma_blocker_penalty(s: Seq<Finding>, g: ScoreGroup, i: int)
    requires
        0 <= i < s.len(),
        in_group(s[i].category, g),
        s[i].severity == FindingSeverity::Blocker,
    ensures
        group_penalty(s, g) >= 40,
        group_count(s, g) >= 1,
    decreases s.len(),
{
    lemma_group_penalty_nonneg(s.drop_last(), g);
    if i < s.len() - 1 {
        assert(s.drop_last()[i] == s[i]);
        lemma_blocker_penalty(s.drop_last(), g, i);
    }
}

/// Blockers cap the score: a group with a blocker finding scores at most 60.
pub proof fn law_blocker_caps_group_score(s: Seq<Finding>, g: ScoreGroup, i: int)
    requires
        0 <= i < s.len(),
        in_group(s[i].category, g),
        s[i].severity == FindingSeverity::Blocker,
    ensures
        group_score(s, g) <= 60,
{
    lemma_blocker_penalty(s, g, i);
}

/// A group with no findings scores 100.
pub proof fn law_clean_group_scores_full(s: Seq<Finding>, g: ScoreGroup)
    requires
        forall|i: int| 0 <= i < s.len() ==> !in_group(#[trigger] s[i].category, g),
    ensures
        group_score(s, g) == 100,
    decreases s.len(),
{
    if s.len() > 0 {
        assert forall|i: int| 0 <= i < s.drop_last().len() implies !in_group(
            #[trigger] s.drop_last()[i].category,
            g,
        ) by {
            assert(s.drop_last()[i] == s[i]);
        }
        law_clean_group_scores_full(s.drop_last(), g);
        assert(!in_group(s[s.len() - 1].category, g));
    }
}


proof fn lemma_group_update(s: Seq<Finding>, g: ScoreGroup, i: int, f: Finding)
    requires
        0 <= i < s.len(),
        f.severity == s[i].severity,
        in_group(f.category, g) == in_group(s[i].category, g),
    ensures
        group_penalty(s.update(i, f), g) == group_penalty(s, g),
        group_count(s.update(i, f), g) == group_count(s, g),
    decreases s.len(),
{
    let t = s.update(i, f);
    if i < s.len() - 1 {
        assert(t.drop_last() =~= s.drop_last().update(i, f));
        lemma_group_update(s.drop_last(), g, i, f);
        assert(t.last() == s.last());
    } else {
        assert(t.drop_last() =~= s.drop_last());
        assert(t.last() == f);
    }
}

proof fn lemma_group_remove(s: Seq<Finding>, g: ScoreGroup, i: int)
    requires
        0 <= i < s.len(),
        !in_group(s[i].category, g),
    ensures
        group_penalty(s.remove(i), g) == group_penalty(s, g),
        group_count(s.remove(i), g) == group_count(s, g),
    decreases s.len(),
{
    let t = s.remove(i);
    if i < s.len() - 1 {
        assert(t.drop_last() =~= s.drop_last().remove(i));
        lemma_group_remove(s.drop_last(), g, i);
        assert(t.last() == s.last());
    } else {
        assert(t =~= s.drop_last());
    }
}

/// Platform findings count towards readiness exactly as readiness findings do: turning a
/// platform finding into a readiness finding of the same severity changes no score.
pub proof fn law_platform_counts_as_readiness(s: Seq<Finding>, i: int, f: Finding)
    requires
        0 <= i < s.len(),
        s[i].category == FindingCategory::Platform,
        f.category == FindingCategory::Readiness,
        f.severity == s[i].severity,
    ensures
        spec_scores(s.update(i, f)) == spec_scores(s),
{
    lemma_group_update(s, ScoreGroup::Readiness, i, f);
    lemma_group_update(s, ScoreGroup::Sidecar, i, f);
    lemma_group_update(s, ScoreGroup::Traffic, i, f);
}

/// Each finding counts towards one score only: a readiness or platform finding towards
/// readiness, a sidecar dependency finding towards sidecar dependency, a traffic
/// compatibility finding towards traffic compatibility, and a policy translation finding
/// towards none. Removing a finding leaves every other score as it was.
pub proof fn law_finding_counts_in_its_area(s: Seq<Finding>, i: int)
    requires
        0 <= i < s.len(),
    ensures
        s[i].category != FindingCategory::Readiness && s[i].category != FindingCategory::Platform ==> spec_scores(
            s.remove(i),
        ).0 == spec_scores(s).0,
        s[i].category != FindingCategory::SidecarDependency ==> spec_scores(s.remove(i)).1 == spec_scores(s).1,
        s[i].category != FindingCategory::TrafficCompatibility ==> spec_scores(s.remove(i)).2 == spec_scores(s).2,
        s[i].category == FindingCategory::PolicyTranslation ==> spec_scores(s.remove(i)) == spec_scores(s),
{
    if !in_group(s[i].category, ScoreGroup::Readiness) {
        lemma_group_remove(s, ScoreGroup::Readiness, i);
    }
    if !in_group(s[i].category, ScoreGroup::Sidecar) {
        lemma_group_remove(s, ScoreGroup::Sidecar, i);
    }
    if !in_group(s[i].category, ScoreGroup::Traffic) {
        lemma_group_remove(s, ScoreGroup::Traffic, i);
    }
}

/// A blocker caps the score of its area at 60: a readiness or platform blocker caps
/// readiness, a sidecar dependency blocker caps sidecar dependency, a traffic compatibility
/// blocker caps traffic compatibility.
pub proof fn law_blocker_caps_its_area(s: Seq<Finding>, i: int)
    requires
        0 <= i < s.len(),
        s[i].severity == FindingSeverity::Blocker,
    ensures
        s[i].category == FindingCategory::Readiness || s[i].category == FindingCategory::Platform ==> spec_scores(s).0
            <= 60,
        s[i].category == FindingCategory::SidecarDependency ==> spec_scores(s).1 <= 60,
        s[i].category == FindingCategory::TrafficCompatibility ==> spec_scores(s).2 <= 60,
{
    if s[i].category == FindingCategory::Readiness || s[i].category == FindingCategory::Platform {
        lemma_blocker_penalty(s, ScoreGroup::Readiness, i);
    }
    if s[i].category == FindingCategory::SidecarDependency {
        lemma_blocker_penalty(s, ScoreGroup::Sidecar, i);
    }
    if s[i].category == FindingCategory::TrafficCompatibility {
        lemma_blocker_penalty(s, ScoreGroup::Traffic, i);
    }
}

} // verus!
