use ambientor::model::{Finding, FindingCategory, FindingSeverity};
use ambientor::rollouts::{
    approval_patch, choose_actor, direct_approval_patch, int_to_text, listed_rollout_items, rollout_detail,
    rollout_detail_lines, rollout_event, rollout_ns_status, rollout_exists_error, rollout_name_for_plan, rollout_status_lines,
    sort_rollout_items, validate_approval, RolloutInfo, RolloutStage, RolloutStageType, RolloutStatus, StageResult,
};
use ambientor::requests::RolloutConditionView;
use ambientor::scoring::compute_scores;

fn status(current: i32, approved: i32, phase: &str) -> RolloutStatus {
    RolloutStatus { phase: phase.into(), current_stage: current, approved_stage: approved, stage_results: vec![] }
}

fn finding(id: &str, severity: FindingSeverity, category: FindingCategory) -> Finding {
    Finding {
        id: id.into(),
        severity,
        category,
        title: "x".into(),
        message: "y".into(),
        namespace: None,
        resource: None,
        remediation: None,
        doc_url: None,
        evidence: None,
    }
}

#[test]
fn approve_current_stage_ok() {
    assert!(validate_approval(&status(2, 1, "AwaitingApproval"), 2, 5).is_ok());
}

#[test]
fn reject_wrong_stage() {
    assert!(validate_approval(&status(2, 1, "AwaitingApproval"), 3, 5).is_err());
}

#[test]
fn approval_refusals_carry_status_and_message() {
    let e = validate_approval(&status(2, 1, "AwaitingApproval"), 3, 5).unwrap_err();
    assert_eq!(e.status, 400);
    assert_eq!(e.message, "can only approve current stage 2; requested 3");
    let e = validate_approval(&status(0, -1, "Running"), -1, 5).unwrap_err();
    assert_eq!(e.status, 400);
    assert_eq!(e.message, "stage index -1 out of range (0..5)");
    let e = validate_approval(&status(1, 0, "Completed"), 1, 5).unwrap_err();
    assert_eq!((e.status, e.message.as_str()), (409, "rollout already completed"));
    let e = validate_approval(&status(1, 0, "Failed"), 1, 5).unwrap_err();
    assert_eq!((e.status, e.message.as_str()), (409, "rollout failed; fix or delete before approving"));
    let e = validate_approval(&status(1, 1, "Running"), 1, 5).unwrap_err();
    assert_eq!((e.status, e.message.as_str()), (409, "stage 1 already approved"));
}

#[test]
fn approval_patch_defaults_to_current_stage_and_restarts_rolled_back() {
    let st = status(1, 0, "RolledBack");
    let p = approval_patch(Some(&st), None, 3).unwrap();
    assert_eq!(p.stage, 1);
    assert_eq!(p.phase, "Pending");
    let e = approval_patch(None, Some(0), 3).unwrap_err();
    assert_eq!((e.status, e.message.as_str()), (409, "rollout has no status yet"));
}

#[test]
fn rollout_names_actors_and_numbers() {
    assert_eq!(rollout_name_for_plan("bookinfo-plan"), "bookinfo-plan-rollout");
    assert_eq!(choose_actor(None, Some("alice".into()), "api"), "alice");
    assert_eq!(choose_actor(Some("cli".into()), Some("alice".into()), "api"), "cli");
    assert_eq!(choose_actor(None, None, "api"), "api");
    assert_eq!(int_to_text(i32::MIN), "-2147483648");
    assert_eq!(int_to_text(0), "0");
    let e = rollout_exists_error("default", "p-rollout");
    assert_eq!((e.status, e.message.as_str()), (409, "Rollout default/p-rollout already exists"));
}

#[test]
fn blocker_reduces_score() {
    let findings = vec![finding("t", FindingSeverity::Blocker, FindingCategory::Readiness)];
    let s = compute_scores(&findings);
    assert!(s.readiness < 100);
}

#[test]
fn clean_assessment_scores_full() {
    let s = compute_scores(&[]);
    assert_eq!((s.readiness, s.sidecar_dependency, s.traffic_compatibility, s.overall), (100, 100, 100, 100));
}

#[test]
fn rollout_events_fill_defaults() {
    let bare = RolloutInfo { name: Some("r1".into()), namespace: None, stages: vec![], plan_ref: None, cluster_ref: Some("c/x".into()), status: None };
    let e = rollout_event(&bare).unwrap();
    assert_eq!(e.namespace, "default");
    assert_eq!(e.name, "r1");
    assert_eq!(e.phase, "Unknown");
    assert_eq!((e.current_stage, e.approved_stage), (0, -1));
    assert_eq!(e.cluster_ref.as_deref(), Some("c/x"));
    assert_eq!(e.plan_ref, None);
    let full = RolloutInfo {
        name: Some("r2".into()),
        namespace: Some("apps".into()),
        stages: vec![],
        plan_ref: Some("p".into()),
        cluster_ref: None,
        status: Some(status(2, 1, "AwaitingApproval")),
    };
    let e = rollout_event(&full).unwrap();
    assert_eq!((e.namespace.as_str(), e.phase.as_str(), e.current_stage, e.approved_stage), ("apps", "AwaitingApproval", 2, 1));
    assert_eq!(e.plan_ref.as_deref(), Some("p"));
    let unnamed = RolloutInfo { name: None, namespace: None, stages: vec![], plan_ref: None, cluster_ref: None, status: None };
    assert!(rollout_event(&unnamed).is_none());
}

#[test]
fn direct_approval_writes_requested_or_current_stage() {
    let p = direct_approval_patch(&status(3, 2, "RolledBack"), None);
    assert_eq!((p.stage, p.phase.as_str()), (3, "Pending"));
    let p = direct_approval_patch(&status(3, 2, "AwaitingApproval"), Some(7));
    assert_eq!((p.stage, p.phase.as_str()), (7, "AwaitingApproval"));
}

#[test]
fn rollout_status_lines_name_the_awaited_stage() {
    let names = vec!["canary".to_string(), "rest".to_string()];
    let lines = rollout_status_lines("apps", "r", &status(1, 0, "AwaitingApproval"), &names);
    assert_eq!(lines, vec![
        "rollout apps/r: phase=AwaitingApproval currentStage=1 approvedStage=0 stages=2".to_string(),
        "awaiting approval for stage 1 (rest)".to_string(),
    ]);
    let lines = rollout_status_lines("apps", "r", &status(5, -1, "AwaitingApproval"), &names);
    assert_eq!(lines[0], "rollout apps/r: phase=AwaitingApproval currentStage=5 approvedStage=-1 stages=2");
    assert_eq!(lines[1], "awaiting approval for stage 5 (?)");
    let lines = rollout_status_lines("apps", "r", &status(0, -1, "Running"), &names);
    assert_eq!(lines.len(), 1);
}

fn info(name: Option<&str>, namespace: Option<&str>, cluster: Option<&str>, st: Option<RolloutStatus>) -> RolloutInfo {
    RolloutInfo {
        name: name.map(String::from),
        namespace: namespace.map(String::from),
        stages: vec![
            RolloutStage { name: "canary".into(), stage_type: RolloutStageType::EnrollNamespace, namespaces: vec!["shop".into()], requires_approval: true },
            RolloutStage { name: "rest".into(), stage_type: RolloutStageType::RollingRestart, namespaces: vec![], requires_approval: false },
        ],
        plan_ref: None,
        cluster_ref: cluster.map(String::from),
        status: st,
    }
}

#[test]
fn rollout_list_keeps_cluster_rollouts_sorted() {
    let rollouts = vec![
        info(Some("z"), Some("b"), None, Some(status(0, -1, "Running"))),
        info(Some("other"), Some("a"), Some("c/west"), Some(status(0, -1, "Running"))),
        info(Some("a"), Some("b"), Some("c/east"), Some(status(1, 0, "AwaitingApproval"))),
        info(Some("new"), None, None, None),
        info(None, Some("a"), None, Some(status(0, -1, "Running"))),
        info(Some("m"), None, None, Some(status(0, -1, "Pending"))),
    ];
    let items = listed_rollout_items(&rollouts, "c/east");
    let names: Vec<&str> = items.iter().map(|i| i.name.as_str()).collect();
    assert_eq!(names, vec!["z", "a", "m"]);
    assert!(items[1].awaiting_approval);
    assert_eq!(items[1].stage_count, 2);
    assert_eq!(items[2].namespace, "default");
    let sorted = sort_rollout_items(items);
    let keys: Vec<(&str, &str)> = sorted.iter().map(|i| (i.namespace.as_str(), i.name.as_str())).collect();
    assert_eq!(keys, vec![("b", "a"), ("b", "z"), ("default", "m")]);
}

#[test]
fn rollout_detail_shows_stage_results() {
    let mut st = status(1, 0, "AwaitingApproval");
    st.stage_results = vec![StageResult { name: "canary".into(), phase: "Succeeded".into(), message: Some("ok".into()) }];
    let cond = RolloutConditionView { condition_type: "Ready".into(), status: "False".into(), reason: None, message: None };
    let d = rollout_detail(&info(Some("r"), Some("apps"), None, Some(st)), true, None, vec![cond]).unwrap();
    assert_eq!(d.rollout.name, "r");
    assert!(d.auto_rollback);
    assert_eq!(d.stages.len(), 2);
    assert_eq!(d.stages[0].stage_type, "Enroll namespace");
    assert_eq!(d.stages[0].result_phase.as_deref(), Some("Succeeded"));
    assert_eq!(d.stages[1].result_phase, None);
    assert_eq!(d.conditions[0].condition_type, "Ready");
    let e = rollout_detail(&info(Some("r"), None, None, None), false, None, vec![]).unwrap_err();
    assert_eq!((e.status, e.message.as_str()), (404, "rollout has no status yet"));
    let lines = rollout_detail_lines(&d.rollout);
    assert_eq!(lines, vec![
        "rollout apps/r: phase=AwaitingApproval currentStage=1 approvedStage=0".to_string(),
        "awaiting approval for stage 1".to_string(),
    ]);
}

#[test]
fn rollout_phases_by_target_namespace() {
    let mut east = info(Some("e"), Some("apps"), Some("c/east"), Some(status(0, -1, "Running")));
    east.stages[1].namespaces = vec!["cart".into()];
    let hub = info(Some("h"), Some("apps"), None, Some(status(0, -1, "Completed")));
    let blank = info(Some("b"), Some("apps"), Some(""), None);
    let rollouts = vec![east, hub, blank];
    let on_east = rollout_ns_status(&rollouts, "c/east", false);
    assert_eq!(on_east.len(), 2);
    assert_eq!(on_east.get("shop").map(|s| s.as_str()), Some("Running"));
    assert_eq!(on_east.get("cart").map(|s| s.as_str()), Some("Running"));
    let on_hub = rollout_ns_status(&rollouts, "in-cluster", true);
    assert_eq!(on_hub.get("shop").map(|s| s.as_str()), Some(""));
    assert_eq!(on_hub.get("cart"), None);
}
