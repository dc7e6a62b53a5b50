use ambientor::inventory::assessment_table;
use ambientor::model::{AssessmentScores, Finding, FindingCategory, FindingSeverity, FindingSummary};
use ambientor::sarif::{build_rules, category_str, severity_level, to_sarif, AssessOutput};

fn finding(id: &str, severity: FindingSeverity, category: FindingCategory, title: &str, message: &str) -> Finding {
    Finding {
        id: id.into(),
        severity,
        category,
        title: title.into(),
        message: message.into(),
        namespace: None,
        resource: None,
        remediation: None,
        doc_url: None,
        evidence: None,
    }
}

fn prop<'a>(props: &'a [(String, String)], key: &str) -> Option<&'a str> {
    props.iter().find(|(k, _)| k == key).map(|(_, v)| v.as_str())
}

#[test]
fn sarif_includes_evidence_and_scores() {
    let mut f = finding(
        "test.rule",
        FindingSeverity::Warning,
        FindingCategory::TrafficCompatibility,
        "Test rule",
        "Something is wrong",
    );
    f.namespace = Some("bookinfo".into());
    f.resource = Some("DestinationRule/reviews".into());
    f.remediation = Some("Migrate subsets".into());
    f.doc_url = Some("https://istio.io/latest/docs/".into());
    f.evidence = Some("subsets:\n  - v1".into());
    let out = AssessOutput {
        findings: vec![f],
        scores: AssessmentScores { overall: 80, readiness: 90, sidecar_dependency: 85, traffic_compatibility: 70 },
        summary: FindingSummary { blockers: 0, warnings: 1, info: 0 },
    };
    let v = to_sarif(&out, "0.1.0");
    assert_eq!(v.version, "2.1.0");
    let result = &v.runs[0].results[0];
    assert_eq!(result.rule_id, "test.rule");
    assert_eq!(result.level, "warning");
    assert_eq!(prop(&result.properties, "evidence"), Some("subsets:\n  - v1"));
    assert_eq!(v.runs[0].scores.overall, 80);
}

#[test]
fn blocker_maps_to_error_level() {
    let out = AssessOutput {
        findings: vec![finding("block", FindingSeverity::Blocker, FindingCategory::Readiness, "Blocked", "Cannot migrate")],
        scores: AssessmentScores { readiness: 0, sidecar_dependency: 0, traffic_compatibility: 0, overall: 0 },
        summary: FindingSummary { blockers: 0, warnings: 0, info: 0 },
    };
    let v = to_sarif(&out, "0.1.0");
    assert_eq!(v.runs[0].results[0].level, "error");
}

#[test]
fn sarif_result_details() {
    let mut f = finding("a", FindingSeverity::Info, FindingCategory::Platform, "T", "M");
    f.resource = Some("Pod/x".into());
    let out = AssessOutput {
        findings: vec![f, finding("a", FindingSeverity::Warning, FindingCategory::Readiness, "T2", "M2")],
        scores: AssessmentScores { readiness: 1, sidecar_dependency: 2, traffic_compatibility: 3, overall: 2 },
        summary: FindingSummary { blockers: 0, warnings: 1, info: 1 },
    };
    let v = to_sarif(&out, "9.9.9");
    assert_eq!(v.schema, "https://raw.githubusercontent.com/oasis-tcs/sarif-spec/master/Schemata/sarif-schema-2.1.0.json");
    let driver = &v.runs[0].tool.driver;
    assert_eq!(driver.name, "ambientor");
    assert_eq!(driver.version, "9.9.9");
    assert_eq!(driver.rules.len(), 1);
    assert_eq!(driver.rules[0].default_configuration.level, "note");
    let r0 = &v.runs[0].results[0];
    assert_eq!(r0.message.text, "T — M");
    assert_eq!(r0.locations[0].physical_location.artifact_location.as_ref().unwrap().uri, "Pod/x");
    assert_eq!(r0.properties, vec![("category".to_string(), "platform".to_string())]);
    assert!(v.runs[0].results[1].locations.is_empty());
    assert_eq!(severity_level(FindingSeverity::Info), "note");
    assert_eq!(category_str(FindingCategory::SidecarDependency), "sidecar_dependency");
}

#[test]
fn rules_keep_first_finding_per_id() {
    let fs = vec![
        finding("x", FindingSeverity::Warning, FindingCategory::Readiness, "first", "m"),
        finding("y", FindingSeverity::Blocker, FindingCategory::Readiness, "other", "m"),
        finding("x", FindingSeverity::Info, FindingCategory::Readiness, "second", "m"),
    ];
    let rules = build_rules(&fs);
    assert_eq!(rules.len(), 2);
    assert_eq!(rules[0].id, "x");
    assert_eq!(rules[0].short_description.text, "first");
    assert_eq!(rules[1].id, "y");
}

#[test]
fn assessment_table_lines() {
    let out = AssessOutput {
        findings: vec![finding("b", FindingSeverity::Blocker, FindingCategory::Readiness, "Blocked", "Cannot migrate")],
        scores: AssessmentScores { readiness: 60, sidecar_dependency: 100, traffic_compatibility: 100, overall: 86 },
        summary: FindingSummary { blockers: 1, warnings: 0, info: 0 },
    };
    assert_eq!(
        assessment_table(&out),
        vec![
            "Overall score: 86".to_string(),
            "Blockers: 1  Warnings: 0  Info: 0".to_string(),
            "[Blocker] Blocked — Cannot migrate".to_string(),
        ]
    );
}
