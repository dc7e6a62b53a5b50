use ambientor::assessments::{
    crd_assess_response, direct_assess_response,
    assessment_index, assessment_poll, assessment_timeout_message, assessment_to_item, direct_assess_enabled,
    empty_findings_assessment_names, findings_overrides, install_namespace, portal_assessment_name,
    sort_assessment_items, with_stored_findings, AssessmentPoll,
    AssessmentResource, AssessmentStatusView, CompletedAssessment,
};
use ambientor::connections::{connection_export_doc, kube_error_response, ConnectionInfo};
use ambientor::inventory::AssessmentResult;
use ambientor::stored::scan_payload;
use ambientor::model::{AssessmentScores, Finding, FindingCategory, FindingSeverity, FindingSummary};
use ambientor::requests::{
    plan_audit_resource, sort_translation_summaries, translation_status_of, translation_summary, TranslationStatusView,
    TranslationSummary,
};
use ambientor::translate::TranslationResult;

fn finding(id: &str, severity: FindingSeverity, namespace: Option<&str>) -> Finding {
    Finding {
        id: id.into(),
        severity,
        category: FindingCategory::Readiness,
        title: "t".into(),
        message: "m".into(),
        namespace: namespace.map(String::from),
        resource: None,
        remediation: None,
        doc_url: None,
        evidence: None,
    }
}

fn status(phase: &str, findings: Vec<Finding>, summary: Option<FindingSummary>) -> AssessmentStatusView {
    AssessmentStatusView {
        phase: phase.into(),
        readiness_score: 90,
        sidecar_dependency_score: 80,
        traffic_compatibility_score: 70,
        overall_score: 80,
        findings,
        summary,
    }
}

#[test]
fn completed_assessment_scores_and_summary() {
    let c = CompletedAssessment {
        name: "a".into(),
        namespace: "ambientor-system".into(),
        status: status("Completed", vec![finding("x", FindingSeverity::Blocker, None), finding("y", FindingSeverity::Info, None)], None),
    };
    assert_eq!(c.scores().overall, 80);
    let s = c.summary();
    assert_eq!((s.blockers, s.warnings, s.info), (1, 0, 1));
}

#[test]
fn items_and_stored_findings() {
    assert!(assessment_to_item(None, None, Some(status("Completed", vec![], None))).is_none());
    assert!(assessment_to_item(Some("a".into()), None, None).is_none());
    let item = assessment_to_item(Some("a".into()), None, Some(status("Completed", vec![], None))).unwrap();
    assert_eq!(item.namespace, "default");
    assert_eq!(item.summary, FindingSummary { blockers: 0, warnings: 0, info: 0 });
    let stored = vec![finding("s", FindingSeverity::Warning, Some("bookinfo"))];
    let item = with_stored_findings(item, Some((stored, FindingSummary { blockers: 0, warnings: 1, info: 0 })));
    assert_eq!(item.findings.len(), 1);
    assert_eq!(item.summary.warnings, 1);
    let mut own = assessment_to_item(Some("b".into()), Some("ns".into()), Some(status("Completed", vec![finding("o", FindingSeverity::Info, None)], None))).unwrap();
    own = with_stored_findings(own, Some((vec![], FindingSummary { blockers: 5, warnings: 0, info: 0 })));
    assert_eq!(own.findings[0].id, "o");
    assert_eq!(own.summary.blockers, 0);
}

#[test]
fn items_sorted_by_namespace_then_name() {
    let mk = |name: &str, ns: &str| assessment_to_item(Some(name.into()), Some(ns.into()), Some(status("Completed", vec![], None))).unwrap();
    let sorted = sort_assessment_items(vec![mk("b", "x"), mk("a", "y"), mk("a", "x")]);
    let keys: Vec<(String, String)> = sorted.iter().map(|i| (i.namespace.clone(), i.name.clone())).collect();
    assert_eq!(keys, vec![("x".into(), "a".into()), ("x".into(), "b".into()), ("y".into(), "a".into())]);
}

#[test]
fn poll_and_names() {
    assert_eq!(assessment_poll(Some("Completed"), true), AssessmentPoll::Completed);
    assert_eq!(assessment_poll(Some("Failed"), false), AssessmentPoll::Failed);
    assert_eq!(assessment_poll(Some("Running"), false), AssessmentPoll::Wait);
    assert_eq!(assessment_poll(None, true), AssessmentPoll::TimedOut);
    assert_eq!(
        assessment_timeout_message("ambientor-system", "p"),
        "timed out after 600s waiting for AmbientAssessment ambientor-system/p to complete"
    );
    assert_eq!(portal_assessment_name(1700000000), "portal-assessment-1700000000");
    assert_eq!(portal_assessment_name(-5), "portal-assessment--5");
    assert_eq!(install_namespace(None), "ambientor-system");
    assert!(direct_assess_enabled(Some("yes")));
    assert!(!direct_assess_enabled(Some("no")));
    assert!(!direct_assess_enabled(None));
}

#[test]
fn index_covers_finding_namespaces_and_uses_overrides() {
    let resources = vec![
        AssessmentResource {
            name: Some("first".into()),
            namespace: Some("ambientor-system".into()),
            status: Some(status("Completed", vec![
                finding("a", FindingSeverity::Warning, Some("shop")),
                finding("b", FindingSeverity::Blocker, Some("bookinfo")),
                finding("c", FindingSeverity::Info, Some("shop")),
            ], None)),
        },
        AssessmentResource { name: Some("pending".into()), namespace: Some("x".into()), status: None },
        AssessmentResource {
            name: Some("second".into()),
            namespace: Some("ambientor-system".into()),
            status: Some(status("Running", vec![], None)),
        },
    ];
    let overrides = vec![("second".to_string(), vec![finding("d", FindingSeverity::Info, Some("shop"))])];
    let index = assessment_index(&resources, &overrides);
    let keys: Vec<(&str, &str)> = index.entries.iter().map(|e| (e.namespace.as_str(), e.name.as_str())).collect();
    assert_eq!(keys, vec![("bookinfo", "first"), ("shop", "first"), ("shop", "second")]);
    assert!(index.entries[0].has_blocker && index.entries[0].scanned);
    assert!(!index.entries[2].scanned);
    assert_eq!(index.entries[2].findings[0].id, "d");
    assert_eq!(index.find("shop"), Some(2));
    assert_eq!(index.find("x"), None);
    let own_ns = assessment_index(&vec![AssessmentResource { name: None, namespace: Some("solo".into()), status: Some(status("Ready", vec![], None)) }], &vec![]);
    assert_eq!(own_ns.entries[0].namespace, "solo");
    assert_eq!(own_ns.entries[0].name, "unknown");
    assert!(own_ns.entries[0].scanned);
}

#[test]
fn connection_exports_and_errors() {
    let conn = ConnectionInfo {
        name: Some("east".into()),
        namespace: None,
        display_name: "East".into(),
        api_server: None,
        secret_name: "east-kubeconfig".into(),
        secret_namespace: None,
        hub: false,
        phase: "Ready".into(),
        last_sync_time: None,
        conditions: vec![],
    };
    let doc = connection_export_doc(&conn).unwrap();
    assert_eq!(doc.namespace, "ambientor-system");
    assert_eq!(doc.kind, "ClusterConnection");
    assert_eq!(doc.api_version, "ambientor.io/v1alpha1");
    let nameless = ConnectionInfo { name: None, ..conn };
    let e = connection_export_doc(&nameless).unwrap_err();
    assert_eq!((e.status, e.message.as_str()), (500, "missing name"));
    let e = kube_error_response(Some((409, "exists")), "other");
    assert_eq!((e.status, e.message.as_str()), (409, "ClusterConnection already exists: exists"));
    assert_eq!(kube_error_response(Some((404, "gone")), "x").status, 404);
    let e = kube_error_response(None, "boom");
    assert_eq!((e.status, e.message.as_str()), (500, "boom"));
}

#[test]
fn translation_summaries_sorted_by_name() {
    let st = || TranslationStatusView { phase: "Ready".into(), suggested_manifest: None, warnings: vec![] };
    assert!(translation_summary(None, "vs".into(), Some(st())).is_none());
    let mk = |n: &str| -> TranslationSummary { translation_summary(Some(n.into()), "vs".into(), Some(st())).unwrap() };
    let sorted = sort_translation_summaries(vec![mk("b"), mk("a"), mk("c")]);
    let names: Vec<&str> = sorted.iter().map(|t| t.name.as_str()).collect();
    assert_eq!(names, vec!["a", "b", "c"]);
    assert_eq!(plan_audit_resource("default", "p"), "migrationplan/default/p");
}

#[test]
fn assessments_without_findings_take_stored_ones() {
    let resources = vec![
        AssessmentResource { name: Some("a".into()), namespace: None, status: Some(status("Completed", vec![], None)) },
        AssessmentResource { name: Some("b".into()), namespace: None, status: Some(status("Completed", vec![finding("x", FindingSeverity::Info, None)], None)) },
        AssessmentResource { name: None, namespace: None, status: Some(status("Completed", vec![], None)) },
        AssessmentResource { name: Some("c".into()), namespace: None, status: None },
        AssessmentResource { name: Some("d".into()), namespace: None, status: Some(status("Running", vec![], None)) },
    ];
    let names = empty_findings_assessment_names(&resources);
    assert_eq!(names, vec!["a".to_string(), "d".to_string()]);
    let stored = vec![Some(vec![finding("s", FindingSeverity::Warning, Some("ns"))]), Some(vec![])];
    let o = findings_overrides(&names, stored);
    assert_eq!(o.len(), 1);
    assert_eq!(o[0].0, "a");
    assert_eq!(o[0].1[0].id, "s");
    assert!(findings_overrides(&names, vec![None, None]).is_empty());
}

#[test]
fn translation_status_from_result() {
    let ok = translation_status_of(Ok(TranslationResult { manifest: "kind: HTTPRoute".into(), warnings: vec!["w".into()] }));
    assert_eq!(ok.phase, "Ready");
    assert_eq!(ok.suggested_manifest.as_deref(), Some("kind: HTTPRoute"));
    assert_eq!(ok.warnings, vec!["w".to_string()]);
    let failed = translation_status_of(Err("tcp only".into()));
    assert_eq!(failed.phase, "Failed");
    assert_eq!(failed.suggested_manifest, None);
    assert_eq!(failed.warnings, vec!["tcp only".to_string()]);
}

#[test]
fn assess_responses_name_their_trigger() {
    let completed = CompletedAssessment {
        name: "portal-assessment-1".into(),
        namespace: "ambientor-system".into(),
        status: status("Completed", vec![finding("a", FindingSeverity::Blocker, None), finding("b", FindingSeverity::Info, None)], None),
    };
    let r = crd_assess_response(completed, 4);
    assert_eq!(r.trigger, "crd");
    assert_eq!(r.application_count, 4);
    assert_eq!(r.findings.len(), 2);
    assert_eq!((r.scores.readiness, r.scores.overall), (90, 80));
    assert_eq!((r.summary.blockers, r.summary.warnings, r.summary.info), (1, 0, 1));
    assert_eq!(r.assessment_name.as_deref(), Some("portal-assessment-1"));
    assert_eq!(r.assessment_namespace.as_deref(), Some("ambientor-system"));
    let result = AssessmentResult {
        findings: vec![],
        scores: AssessmentScores { readiness: 100, sidecar_dependency: 100, traffic_compatibility: 100, overall: 100 },
        summary: FindingSummary { blockers: 0, warnings: 0, info: 0 },
    };
    let r = direct_assess_response(result, 0);
    assert_eq!(r.trigger, "direct");
    assert_eq!(r.assessment_name, None);
    assert_eq!(r.scores.overall, 100);
}

#[test]
fn scan_payloads_record_their_source() {
    let result = AssessmentResult {
        findings: vec![finding("test", FindingSeverity::Info, None)],
        scores: AssessmentScores { readiness: 100, sidecar_dependency: 100, traffic_compatibility: 100, overall: 100 },
        summary: FindingSummary { blockers: 0, warnings: 0, info: 1 },
    };
    let p = scan_payload(&result, None);
    assert_eq!(p.source.as_deref(), Some("api"));
    assert_eq!(p.findings.len(), 1);
    assert_eq!(p.findings[0].id, "test");
    assert_eq!(p.summary.info, 1);
    assert_eq!(p.assessment_name, None);
    let p = scan_payload(&result, Some(("ambientor-system", "east")));
    assert_eq!(p.source.as_deref(), Some("connection:ambientor-system/east"));
}
