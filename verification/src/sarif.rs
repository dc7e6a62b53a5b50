//! SARIF 2.1.0 export of assessment findings (CI / security scanners): one rule per
//! finding id, one result per finding, and the scores and summary as run properties.

use vstd::prelude::*;

use crate::model::{clone_opt_string, AssessmentScores, Finding, FindingCategory, FindingSeverity, FindingSummary};
use crate::refs::vec_contains_str;
use crate::text::{owned, strings_view};

verus! {

/// Result of an assessment as the command line prints or exports it.
#[derive(Debug)]
pub struct AssessOutput {
    pub findings: Vec<Finding>,
    pub scores: AssessmentScores,
    pub summary: FindingSummary,
}

/// A text of a SARIF document.
#[derive(Debug)]
pub struct SarifMessage {
    pub text: String,
}

/// Default configuration of a SARIF rule.
#[derive(Debug)]
pub struct SarifRuleConfig {
    pub level: String,
}

/// A SARIF rule: one per finding id.
#[derive(Debug)]
pub struct SarifRule {
    pub id: String,
    pub short_description: SarifMessage,
    pub help_uri: Option<String>,
    pub default_configuration: SarifRuleConfig,
}

/// Location of an artifact.
#[derive(Debug)]
pub struct SarifArtifactLocation {
    pub uri: String,
}

/// Physical location of a result.
#[derive(Debug)]
pub struct SarifPhysicalLocation {
    pub artifact_location: Option<SarifArtifactLocation>,
}

/// Location of a result.
#[derive(Debug)]
pub struct SarifLocation {
    pub physical_location: SarifPhysicalLocation,
}

/// A SARIF result: one per finding.
#[derive(Debug)]
pub struct SarifResult {
    pub rule_id: String,
    pub level: String,
    pub message: SarifMessage,
    pub locations: Vec<SarifLocation>,
    /// Text properties of the result, by name; never empty, as the category is always one.
    pub properties: Vec<(String, String)>,
}

/// The tool that produced a run.
#[derive(Debug)]
pub struct SarifDriver {
    pub name: String,
    pub version: String,
    pub information_uri: String,
    pub rules: Vec<SarifRule>,
}

/// Tool section of a run.
#[derive(Debug)]
pub struct SarifTool {
    pub driver: SarifDriver,
}

/// A SARIF run, with the assessment's scores and summary as properties.
#[derive(Debug)]
pub struct SarifRun {
    pub tool: SarifTool,
    pub results: Vec<SarifResult>,
    pub scores: AssessmentScores,
    pub summary: FindingSummary,
}

/// A SARIF log.
#[derive(Debug)]
pub struct SarifLog {
    pub schema: String,
    pub version: String,
    pub runs: Vec<SarifRun>,
}

/// SARIF level of a severity.
pub open spec fn level_text(sev: FindingSeverity) -> Seq<char> {
    match sev {
        FindingSeverity::Blocker => "error"@,
        FindingSeverity::Warning => "warning"@,
        FindingSeverity::Info => "note"@,
    }
}

/// SARIF level of a severity.
pub fn severity_level(sev: FindingSeverity) -> (r: &'static str)
    ensures
        r@ == level_text(sev),
{
    match sev {
        FindingSeverity::Blocker => "error",
        FindingSeverity::Warning => "warning",
        FindingSeverity::Info => "note",
    }
}

/// Property text of a category.
pub open spec fn category_text(c: FindingCategory) -> Seq<char> {
    match c {
        FindingCategory::Readiness => "readiness"@,
        FindingCategory::SidecarDependency => "sidecar_dependency"@,
        FindingCategory::TrafficCompatibility => "traffic_compatibility"@,
        FindingCategory::PolicyTranslation => "policy_translation"@,
        FindingCategory::Platform => "platform"@,
    }
}

/// Property text of a category.
pub fn category_str(c: FindingCategory) -> (r: &'static str)
    ensures
        r@ == category_text(c),
{
    match c {
        FindingCategory::Readiness => "readiness",
        FindingCategory::SidecarDependency => "sidecar_dependency",
        FindingCategory::TrafficCompatibility => "traffic_compatibility",
        FindingCategory::PolicyTranslation => "policy_translation",
        FindingCategory::Platform => "platform",
    }
}

/// Views of text properties.
pub open spec fn props_view(p: Seq<(String, String)>) -> Seq<(Seq<char>, Seq<char>)> {
    p.map_values(|kv: (String, String)| (kv.0@, kv.1@))
}

/// A property when its value is there.
pub open spec fn opt_prop(key: Seq<char>, value: Option<String>) -> Seq<(Seq<char>, Seq<char>)> {
    match value {
        Some(v) => seq![(key, v@)],
        None => Seq::empty(),
    }
}

/// Properties of a finding's result: its category, then its remediation, evidence and
/// namespace where it has them.
pub open spec fn result_props(f: Finding) -> Seq<(Seq<char>, Seq<char>)> {
    seq![("category"@, category_text(f.category))] + opt_prop("remediation"@, f.remediation) + opt_prop(
        "evidence"@,
        f.evidence,
    ) + opt_prop("namespace"@, f.namespace)
}

/// Whether a result reports a finding.
pub open spec fn result_of(r: SarifResult, f: Finding) -> bool {
    &&& r.rule_id == f.id
    &&& r.level@ == level_text(f.severity)
    &&& r.message.text@ == f.title@ + " — "@ + f.message@
    &&& match f.resource {
        Some(res) => r.locations@.len() == 1 && (r.locations@[0].physical_location.artifact_location matches Some(a)
            && a.uri == res),
        None => r.locations@.len() == 0,
    }
    &&& props_view(r.properties@) == result_props(f)
}

fn push_prop(props: &mut Vec<(String, String)>, key: &str, value: &Option<String>)
    ensures
        props_view(final(props)@) == props_view(old(props)@) + opt_prop(key@, *value),
{
    let ghost before = props@;
    match value {
        Some(v) => {
            props.push((owned(key), v.clone()));
            assert(props_view(props@) =~= props_view(before) + opt_prop(key@, *value));
        },
        None => {
            assert(props_view(props@) =~= props_view(before) + opt_prop(key@, *value));
        },
    }
}

/// SARIF result of a finding.
pub fn finding_to_result(f: &Finding) -> (r: SarifResult)
    ensures
        result_of(r, *f),
{
    let mut props: Vec<(String, String)> = Vec::new();
    props.push((owned("category"), owned(category_str(f.category))));
    assert(props_view(props@) =~= seq![("category"@, category_text(f.category))]);
    push_prop(&mut props, "remediation", &f.remediation);
    push_prop(&mut props, "evidence", &f.evidence);
    push_prop(&mut props, "namespace", &f.namespace);
    let mut locations: Vec<SarifLocation> = Vec::new();
    match &f.resource {
        Some(res) => {
            locations.push(SarifLocation {
                physical_location: SarifPhysicalLocation {
                    artifact_location: Some(SarifArtifactLocation { uri: res.clone() }),
                },
            });
        },
        None => {},
    }
    let mut text = f.title.clone();
    text.append(" — ");
    text.append(f.message.as_str());
    SarifResult {
        rule_id: f.id.clone(),
        level: owned(severity_level(f.severity)),
        message: SarifMessage { text },
        locations,
        properties: props,
    }
}

/// Findings that give the rules: the first finding of each id, in order, given the ids
/// already seen.
pub open spec fn rule_findings(seen: Seq<Seq<char>>, fs: Seq<Finding>) -> Seq<Finding>
    decreases fs.len(),
{
    if fs.len() == 0 {
        Seq::empty()
    } else {
        let f = fs[0];
        let rest = fs.subrange(1, fs.len() as int);
        if seen.contains(f.id@) {
            rule_findings(seen, rest)
        } else {
            seq![f] + rule_findings(seen.push(f.id@), rest)
        }
    }
}

/// Rules have distinct ids, none already seen, and every finding's id is seen or has its
/// rule.
pub proof fn law_one_rule_per_finding_id(seen: Seq<Seq<char>>, fs: Seq<Finding>)
    ensures
        forall|i: int, j: int|
            0 <= i < j < rule_findings(seen, fs).len() ==> (#[trigger] rule_findings(seen, fs)[i]).id@
                != (#[trigger] rule_findings(seen, fs)[j]).id@,
        forall|i: int| 0 <= i < rule_findings(seen, fs).len() ==> !seen.contains((#[trigger] rule_findings(seen, fs)[i]).id@),
        forall|k: int|
            0 <= k < fs.len() ==> seen.contains((#[trigger] fs[k]).id@) || exists|i: int|
                0 <= i < rule_findings(seen, fs).len() && rule_findings(seen, fs)[i].id@ == fs[k].id@,
    decreases fs.len(),
{
    if fs.len() > 0 {
        let f = fs[0];
        let rest = fs.subrange(1, fs.len() as int);
        let all = rule_findings(seen, fs);
        if seen.contains(f.id@) {
            law_one_rule_per_finding_id(seen, rest);
            assert(all == rule_findings(seen, rest));
            assert forall|k: int| 0 <= k < fs.len() implies seen.contains((#[trigger] fs[k]).id@) || exists|i: int|
                0 <= i < all.len() && all[i].id@ == fs[k].id@ by {
                if k > 0 {
                    assert(fs[k] == rest[k - 1]);
                }
            }
        } else {
            let s2 = seen.push(f.id@);
            let tail = rule_findings(s2, rest);
            law_one_rule_per_finding_id(s2, rest);
            assert(all == seq![f] + tail);
            assert forall|i: int| 0 <= i < all.len() implies !seen.contains((#[trigger] all[i]).id@) by {
                if i > 0 {
                    assert(all[i] == tail[i - 1]);
                    if seen.contains(tail[i - 1].id@) {
                        let k = choose|k: int| 0 <= k < seen.len() && seen[k] == tail[i - 1].id@;
                        assert(s2[k] == seen[k]);
                    }
                }
            }
            assert forall|i: int, j: int| 0 <= i < j < all.len() implies (#[trigger] all[i]).id@ != (#[trigger] all[j]).id@ by {
                assert(all[j] == tail[j - 1]);
                if i == 0 {
                    assert(s2[seen.len() as int] == f.id@);
                } else {
                    assert(all[i] == tail[i - 1]);
                }
            }
            assert forall|k: int| 0 <= k < fs.len() implies seen.contains((#[trigger] fs[k]).id@) || exists|i: int|
                0 <= i < all.len() && all[i].id@ == fs[k].id@ by {
                if k == 0 {
                    assert(all[0] == f);
                } else {
                    assert(fs[k] == rest[k - 1]);
                    if s2.contains(fs[k].id@) {
                        let m = choose|m: int| 0 <= m < s2.len() && s2[m] == fs[k].id@;
                        if m == seen.len() {
                            assert(all[0] == f);
                        } else {
                            assert(seen[m] == s2[m]);
                        }
                    } else {
                        let i = choose|i: int| 0 <= i < tail.len() && tail[i].id@ == rest[k - 1].id@;
                        assert(all[i + 1] == tail[i]);
                    }
                }
            }
        }
    }
}

/// Whether a rule is the one a finding gives.
pub open spec fn rule_of(r: SarifRule, f: Finding) -> bool {
    &&& r.id == f.id
    &&& r.short_description.text == f.title
    &&& r.help_uri == f.doc_url
    &&& r.default_configuration.level@ == level_text(f.severity)
}

/// One rule per distinct finding id, from the first finding with that id, in order.
pub fn build_rules(findings: &Vec<Finding>) -> (r: Vec<SarifRule>)
    ensures
        r@.len() == rule_findings(Seq::empty(), findings@).len(),
        forall|k: int|
            0 <= k < r@.len() ==> rule_of(#[trigger] r@[k], rule_findings(Seq::empty(), findings@)[k]),
{
    let ghost total = rule_findings(Seq::empty(), findings@);
    let ghost mut done: Seq<Finding> = Seq::empty();
    let mut rules: Vec<SarifRule> = Vec::new();
    let mut seen: Vec<String> = Vec::new();
    let mut i: usize = 0;
    proof {
        assert(findings@.subrange(0, findings@.len() as int) =~= findings@);
        assert(strings_view(seen@) =~= Seq::<Seq<char>>::empty());
        assert(done + total =~= total);
    }
    while i < findings.len()
        invariant
            i <= findings@.len(),
            rules@.len() == done.len(),
            forall|k: int| 0 <= k < done.len() ==> rule_of(#[trigger] rules@[k], done[k]),
            done + rule_findings(strings_view(seen@), findings@.subrange(i as int, findings@.len() as int)) == total,
        decreases findings@.len() - i,
    {
        let f = &findings[i];
        let ghost rest = findings@.subrange(i as int, findings@.len() as int);
        proof {
            assert(rest[0] == findings@[i as int]);
            assert(rest.subrange(1, rest.len() as int) =~= findings@.subrange(i + 1, findings@.len() as int));
        }
        if !vec_contains_str(&seen, f.id.as_str()) {
            let ghost seen_before = strings_view(seen@);
            let ghost tail = rule_findings(seen_before.push(f.id@), findings@.subrange(i + 1, findings@.len() as int));
            let ghost rules_before = rules@;
            seen.push(f.id.clone());
            rules.push(SarifRule {
                id: f.id.clone(),
                short_description: SarifMessage { text: f.title.clone() },
                help_uri: clone_opt_string(&f.doc_url),
                default_configuration: SarifRuleConfig { level: owned(severity_level(f.severity)) },
            });
            proof {
                assert(strings_view(seen@) =~= seen_before.push(f.id@));
                assert(done + (seq![*f] + tail) =~= done.push(*f) + tail);
                done = done.push(*f);
                assert forall|k: int| 0 <= k < done.len() implies rule_of(#[trigger] rules@[k], done[k]) by {
                    if k < done.len() - 1 {
                        assert(rules@[k] == rules_before[k]);
                    }
                }
            }
        }
        i += 1;
    }
    proof {
        assert(findings@.subrange(findings@.len() as int, findings@.len() as int) =~= Seq::<Finding>::empty());
        assert(done + Seq::<Finding>::empty() =~= done);
    }
    rules
}

/// Whether the results report the findings one by one, in order.
pub open spec fn results_of(rs: Seq<SarifResult>, fs: Seq<Finding>) -> bool {
    &&& rs.len() == fs.len()
    &&& forall|k: int| 0 <= k < fs.len() ==> result_of(#[trigger] rs[k], fs[k])
}

/// SARIF 2.1.0 document of an assessment, produced by the given version of the tool.
pub fn to_sarif(out: &AssessOutput, tool_version: &str) -> (r: SarifLog)
    ensures
        r.schema@ == "https://raw.githubusercontent.com/oasis-tcs/sarif-spec/master/Schemata/sarif-schema-2.1.0.json"@,
        r.version@ == "2.1.0"@,
        r.runs@.len() == 1,
        r.runs@[0].tool.driver.name@ == "ambientor"@,
        r.runs@[0].tool.driver.version@ == tool_version@,
        r.runs@[0].tool.driver.information_uri@ == "https://github.com/arencloud/ambientor"@,
        r.runs@[0].tool.driver.rules@.len() == rule_findings(Seq::empty(), out.findings@).len(),
        forall|k: int|
            0 <= k < r.runs@[0].tool.driver.rules@.len() ==> rule_of(
                #[trigger] r.runs@[0].tool.driver.rules@[k],
                rule_findings(Seq::empty(), out.findings@)[k],
            ),
        results_of(r.runs@[0].results@, out.findings@),
        r.runs@[0].scores == out.scores,
        r.runs@[0].summary == out.summary,
{
    let rules = build_rules(&out.findings);
    let mut results: Vec<SarifResult> = Vec::new();
    let mut i: usize = 0;
    while i < out.findings.len()
        invariant
            i <= out.findings@.len(),
            results@.len() == i,
            forall|k: int| 0 <= k < i ==> result_of(#[trigger] results@[k], out.findings@[k]),
        decreases out.findings@.len() - i,
    {
        results.push(finding_to_result(&out.findings[i]));
        i += 1;
    }
    let run = SarifRun {
        tool: SarifTool {
            driver: SarifDriver {
                name: owned("ambientor"),
                version: owned(tool_version),
                information_uri: owned("https://github.com/arencloud/ambientor"),
                rules,
            },
        },
        results,
        scores: out.scores,
        summary: out.summary,
    };
    let mut runs: Vec<SarifRun> = Vec::new();
    runs.push(run);
    SarifLog {
        schema: owned("https://raw.githubusercontent.com/oasis-tcs/sarif-spec/master/Schemata/sarif-schema-2.1.0.json"),
        version: owned("2.1.0"),
        runs,
    }
}

} // verus!
