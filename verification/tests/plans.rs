use ambientor::model::{MeshEnrollment, MeshEnrollmentMode, MeshInstance};
use ambientor::plans::{
    check_selection, created_plan_response, execute_plan_response, next_execute_action, ExecuteAction, ExecuteEvent, default_plan_name, requested_or, validated_selection, enrollment_label_preview, mesh_target_for, normalize_selection,
    plan_channel_hints, plan_name, plan_next_action, plan_to_list_item, require_plan_ready, sort_plan_items,
    trim_text, CatalogEntry, MeshTarget, PlanInfo, PlanStatusInfo,
};
use ambientor::requests::{mesh_instance_items, plan_sync_status};
use ambientor::rollouts::RolloutListItem;

fn names(v: &[&str]) -> Vec<String> {
    v.iter().map(|s| s.to_string()).collect()
}

fn mesh(label: &str, tag: Option<&str>, key: Option<&str>) -> MeshInstance {
    MeshInstance {
        revision: "1-22".into(),
        discovery_label: label.into(),
        control_plane_namespace: "istio-system".into(),
        version: None,
        ambient: true,
        enrolled_namespace_count: 0,
        enrollment: MeshEnrollment {
            mode: MeshEnrollmentMode::Revision,
            revision: "1-22".into(),
            istio_revision: None,
            revision_tag: tag.map(String::from),
            discovery_label_key: key.map(String::from),
            discovery_label_value: key.map(|_| "on".to_string()),
            member_roll_namespace: None,
            from_istiod_config: false,
        },
    }
}

fn rollout(phase: &str, awaiting: bool) -> RolloutListItem {
    RolloutListItem {
        name: "p-rollout".into(),
        namespace: "ambientor-system".into(),
        phase: phase.into(),
        current_stage: 0,
        approved_stage: -1,
        stage_count: 1,
        plan_ref: None,
        cluster_ref: None,
        awaiting_approval: awaiting,
    }
}

fn plan(name: Option<&str>, namespace: Option<&str>, cluster: Option<&str>, status: Option<PlanStatusInfo>) -> PlanInfo<u32> {
    PlanInfo {
        name: name.map(String::from),
        namespace: namespace.map(String::from),
        assessment_ref: Some("a1".into()),
        selected_namespaces: names(&["shop"]),
        cluster_ref: cluster.map(String::from),
        display_name: None,
        mesh_target: None,
        waves: vec![7],
        status,
    }
}

fn ready(cluster: Option<&str>) -> PlanStatusInfo {
    PlanStatusInfo { phase: "Ready".into(), approved: false, wave_count: 1, cluster_ref: cluster.map(String::from) }
}

#[test]
fn selection_is_trimmed_sorted_and_deduplicated() {
    let r = normalize_selection(&names(&[" shop ", "bookinfo", "", "shop", "  "])).unwrap();
    assert_eq!(r, names(&["bookinfo", "shop"]));
    let e = normalize_selection(&names(&["", "   "])).unwrap_err();
    assert_eq!((e.status, e.message.as_str()), (400, "selectedNamespaces must not be empty"));
    assert!(normalize_selection(&vec![]).is_err());
    assert_eq!(trim_text("\t a b \n"), "a b");
}

#[test]
fn selection_checked_against_catalog() {
    let apps = vec![
        CatalogEntry { namespace: "shop".into(), blocker_count: 2, migration_candidate: true },
        CatalogEntry { namespace: "ambient".into(), blocker_count: 0, migration_candidate: false },
        CatalogEntry { namespace: "cart".into(), blocker_count: 1, migration_candidate: true },
        CatalogEntry { namespace: "ok".into(), blocker_count: 0, migration_candidate: true },
    ];
    let e = check_selection(&names(&["shop", "cart", "ambient"]), &apps).unwrap_err();
    assert_eq!(e.status, 400);
    assert_eq!(e.message, "cannot migrate namespaces with blockers until resolved: shop, cart");
    let e = check_selection(&names(&["ambient", "ok"]), &apps).unwrap_err();
    assert_eq!(
        e.message,
        "namespaces are not sidecar migration candidates (already ambient or not enrolled): ambient"
    );
    assert!(check_selection(&names(&["ok", "unknown"]), &apps).is_ok());
}

#[test]
fn mesh_target_and_label_preview() {
    let t = mesh_target_for(&mesh("", None, None));
    assert_eq!(t.revision.as_deref(), Some("1-22"));
    assert_eq!(t.discovery_label, None);
    assert_eq!(t.control_plane_namespace.as_deref(), Some("istio-system"));
    assert_eq!(mesh_target_for(&mesh("mesh-a", None, None)).discovery_label.as_deref(), Some("mesh-a"));
    let p = enrollment_label_preview(&mesh("", Some("stable"), Some("istio-discovery")));
    let kv: Vec<(&str, &str)> = p.iter().map(|l| (l.key.as_str(), l.value.as_str())).collect();
    assert_eq!(kv, vec![("istio.io/rev", "stable"), ("istio-discovery", "on"), ("istio.io/dataplane-mode", "ambient")]);
    let p = enrollment_label_preview(&mesh("", None, None));
    let kv: Vec<(&str, &str)> = p.iter().map(|l| (l.key.as_str(), l.value.as_str())).collect();
    assert_eq!(kv, vec![("istio.io/rev", "1-22"), ("istio.io/dataplane-mode", "ambient")]);
}

#[test]
fn plan_names() {
    let sel = names(&["bookinfo-production-east", "cart", "shop", "extra"]);
    assert_eq!(default_plan_name(&sel, "20240101120000"), "migrate-bookinfo-pro-cart-shop-20240101120000");
    assert_eq!(plan_name(Some("mine".into()), &sel), "mine");
    let generated = plan_name(Some(String::new()), &sel);
    assert!(generated.starts_with("migrate-bookinfo-pro-cart-shop-"));
    assert_eq!(generated.len(), "migrate-bookinfo-pro-cart-shop-".len() + 14);
}

#[test]
fn next_action_follows_plan_and_rollout() {
    assert_eq!(plan_next_action("Pending", None), "wait_plan");
    assert_eq!(plan_next_action("Ready", None), "execute");
    assert_eq!(plan_next_action("Ready", Some(&rollout("Completed", false))), "completed");
    assert_eq!(plan_next_action("Ready", Some(&rollout("Failed", true))), "failed");
    assert_eq!(plan_next_action("Ready", Some(&rollout("Pending", true))), "running");
    assert_eq!(plan_next_action("Ready", Some(&rollout("AwaitingApproval", true))), "approve_rollout");
    assert_eq!(plan_next_action("Ready", Some(&rollout("RolledBack", false))), "execute");
}

#[test]
fn channel_hints_and_readiness() {
    let h = plan_channel_hints("ambientor-system", "p1");
    assert_eq!(h.cli, "ambientor plan execute -n ambientor-system p1");
    assert_eq!(
        h.gitops_plan_patch,
        "kubectl patch migrationplan p1 -n ambientor-system --type=merge -p '{\"status\":{\"approved\":true}}'"
    );
    assert_eq!(
        h.gitops_rollout_patch,
        "kubectl patch rollout p1-rollout -n ambientor-system --type=merge -p '{\"status\":{\"approvedStage\":0,\"phase\":\"Pending\"}}'"
    );
    assert!(require_plan_ready(Some("Ready"), true).is_ok());
    let e = require_plan_ready(Some("Pending"), true).unwrap_err();
    assert_eq!((e.status, e.message.as_str()), (409, "plan phase is Pending; wait until Ready"));
    let e = require_plan_ready(Some("Pending"), false).unwrap_err();
    assert_eq!(e.message, "plan phase is Pending; must be Ready");
    let e = require_plan_ready(None, false).unwrap_err();
    assert_eq!((e.status, e.message.as_str()), (409, "plan has no status yet"));
}

#[test]
fn plan_list_entries() {
    let item = plan_to_list_item(plan(Some("p1"), None, None, Some(ready(Some("c/east"))))).unwrap();
    assert_eq!(item.namespace, "default");
    assert_eq!(item.cluster_ref.as_deref(), Some("c/east"));
    assert_eq!((item.phase.as_str(), item.approved, item.wave_count), ("Ready", false, 1));
    assert_eq!(item.waves, vec![7]);
    let item = plan_to_list_item(plan(Some("p1"), Some("ns"), Some("c/west"), Some(ready(Some("c/east"))))).unwrap();
    assert_eq!(item.cluster_ref.as_deref(), Some("c/west"));
    assert!(plan_to_list_item(plan(Some("p1"), None, None, None)).is_none());
    assert!(plan_to_list_item(plan(None, None, None, Some(ready(None)))).is_none());
    let target = MeshTarget { revision: Some("r".into()), discovery_label: None, control_plane_namespace: None };
    let mut with_target = plan(Some("p2"), Some("a"), None, Some(ready(None)));
    with_target.mesh_target = Some(target);
    let items = vec![
        plan_to_list_item(plan(Some("z"), Some("b"), None, Some(ready(None)))).unwrap(),
        plan_to_list_item(with_target).unwrap(),
        plan_to_list_item(plan(Some("a"), Some("b"), None, Some(ready(None)))).unwrap(),
    ];
    let sorted = sort_plan_items(items);
    let keys: Vec<(&str, &str)> = sorted.iter().map(|p| (p.namespace.as_str(), p.name.as_str())).collect();
    assert_eq!(keys, vec![("a", "p2"), ("b", "a"), ("b", "z")]);
    assert_eq!(sorted[0].mesh_target.as_ref().and_then(|t| t.revision.as_deref()), Some("r"));
}

#[test]
fn plan_sync_follows_rollout() {
    let s = plan_sync_status("Ready", "p1-rollout".into(), Some(&rollout("AwaitingApproval", true)), plan_channel_hints("ns", "p1"));
    assert_eq!(s.rollout_name.as_deref(), Some("p1-rollout"));
    assert_eq!(s.rollout_phase.as_deref(), Some("AwaitingApproval"));
    assert!(s.rollout_awaiting_approval);
    assert_eq!(s.next_action, "approve_rollout");
    assert_eq!(s.channels.cli, "ambientor plan execute -n ns p1");
    let s = plan_sync_status("Ready", "p1-rollout".into(), None, plan_channel_hints("ns", "p1"));
    assert_eq!((s.rollout_name, s.rollout_phase, s.rollout_awaiting_approval), (None, None, false));
    assert_eq!(s.next_action, "execute");
}

#[test]
fn single_ambient_mesh_is_auto_selected() {
    let mut sidecar = mesh("", None, None);
    sidecar.ambient = false;
    let items = mesh_instance_items(vec![sidecar.clone(), mesh("m", None, None)]);
    assert_eq!(items.iter().map(|i| i.auto_select).collect::<Vec<_>>(), vec![false, true]);
    assert_eq!(items[1].discovery_label, "m");
    let items = mesh_instance_items(vec![mesh("a", None, None), mesh("b", None, None), sidecar]);
    assert!(items.iter().all(|i| !i.auto_select));
}

#[test]
fn plan_requests_checked_end_to_end() {
    let apps = vec![
        CatalogEntry { namespace: "shop".into(), blocker_count: 1, migration_candidate: true },
        CatalogEntry { namespace: "cart".into(), blocker_count: 0, migration_candidate: true },
    ];
    let v = validated_selection(&names(&[" cart ", "cart", "zeta"]), Some(&apps)).unwrap();
    assert_eq!(v, names(&["cart", "zeta"]));
    let e = validated_selection(&names(&["shop ", "cart"]), Some(&apps)).unwrap_err();
    assert_eq!(e.message, "cannot migrate namespaces with blockers until resolved: shop");
    let e = validated_selection(&names(&[" "]), Some(&apps)).unwrap_err();
    assert_eq!(e.message, "selectedNamespaces must not be empty");
    assert_eq!(validated_selection(&names(&["shop"]), None).unwrap(), names(&["shop"]));

    assert_eq!(requested_or(Some("fleet".into()), "ambientor-system".into()), "fleet");
    assert_eq!(requested_or(Some(String::new()), "ambientor-system".into()), "ambientor-system");
    assert_eq!(requested_or(None, "in-cluster".into()), "in-cluster");

    let r = created_plan_response("p1".into(), "ambientor-system".into(), &names(&["cart", "zeta"]), 3, &mesh("mesh-a", None, None));
    assert_eq!((r.phase.as_str(), r.selected_count, r.wave_count), ("Pending", 2, 3));
    let t = r.mesh_target.unwrap();
    assert_eq!(t.discovery_label.as_deref(), Some("mesh-a"));
    assert_eq!(r.namespace_labels_preview.len(), 2);
    assert_eq!(r.namespace_labels_preview[1].value, "ambient");
}

#[test]
fn plan_execution_steps() {
    let fail = |a: ExecuteAction| match a {
        ExecuteAction::Fail(e) => (e.status, e.message),
        other => panic!("expected a refusal, got {:?}", other),
    };
    assert_eq!(fail(next_execute_action(ExecuteEvent::PlanRead { status: None })), (409, "plan has no status yet".to_string()));
    assert_eq!(
        fail(next_execute_action(ExecuteEvent::PlanRead { status: Some(("Pending".into(), false)) })),
        (409, "plan phase is Pending; wait until Ready".to_string())
    );
    assert!(matches!(next_execute_action(ExecuteEvent::PlanRead { status: Some(("Ready".into(), false)) }), ExecuteAction::ApprovePlan));
    assert!(matches!(next_execute_action(ExecuteEvent::PlanRead { status: Some(("Ready".into(), true)) }), ExecuteAction::EnsureRollout));
    assert!(matches!(next_execute_action(ExecuteEvent::PlanApproved), ExecuteAction::EnsureRollout));
    assert_eq!(fail(next_execute_action(ExecuteEvent::RolloutRead { status: None })), (409, "rollout has no status yet".to_string()));
    assert!(matches!(
        next_execute_action(ExecuteEvent::RolloutRead { status: Some(("AwaitingApproval".into(), 0)) }),
        ExecuteAction::ApproveStage(0)
    ));
    assert!(matches!(
        next_execute_action(ExecuteEvent::RolloutRead { status: Some(("Running".into(), 2)) }),
        ExecuteAction::Respond(p) if p == "Running"
    ));
    assert!(matches!(
        next_execute_action(ExecuteEvent::StageApproved { phase: None }),
        ExecuteAction::Respond(p) if p == "Running"
    ));
    assert!(matches!(
        next_execute_action(ExecuteEvent::StageApproved { phase: Some("Completed".into()) }),
        ExecuteAction::Respond(p) if p == "Completed"
    ));

    let sync = plan_sync_status("Ready", "p1-rollout".into(), None, plan_channel_hints("ns", "p1"));
    let r = execute_plan_response("ns".into(), "p1".into(), "p1-rollout".into(), "Running".into(), sync);
    assert!(r.plan_approved);
    assert_eq!((r.plan_namespace.as_str(), r.rollout_namespace.as_str()), ("ns", "ns"));
    assert_eq!(r.message, "Plan approved and migration pipeline started (one approval; remaining stages run automatically)");
    assert_eq!(r.sync.next_action, "execute");
}
