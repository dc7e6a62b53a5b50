//! Staged rollouts: approval rules, list items, stage views and the phase each rollout
//! gives the namespaces it targets.

use vstd::prelude::*;

use crate::labels::Labels;
use crate::sorting::{apply_order, keys_view, stable_order, stable_sorted};
use crate::text::{owned, str_eq, strings_view};

verus! {

/// An error answered to an API request: HTTP status code and message.
#[derive(Debug)]
pub struct ApiError {
    pub status: u16,
    pub message: String,
}

/// Kinds of rollout stage.
#[derive(Clone, Copy, Debug, PartialEq, Eq, Structural)]
pub enum RolloutStageType {
    InstallAmbientComponents,
    EnrollNamespace,
    DeployWaypoint,
    LabelNamespace,
    TranslatePolicy,
    RollingRestart,
    RemoveInjection,
    VerifyTraffic,
    DryRun,
}

/// One stage of a rollout.
#[derive(Debug)]
pub struct RolloutStage {
    pub name: String,
    pub stage_type: RolloutStageType,
    pub namespaces: Vec<String>,
    pub requires_approval: bool,
}

/// Outcome of one executed stage.
#[derive(Debug)]
pub struct StageResult {
    pub name: String,
    pub phase: String,
    pub message: Option<String>,
}

/// Observed state of a rollout.
#[derive(Debug)]
pub struct RolloutStatus {
    pub phase: String,
    pub current_stage: i32,
    pub approved_stage: i32,
    pub stage_results: Vec<StageResult>,
}

/// A rollout: its identity, stages and observed state.
#[derive(Debug)]
pub struct RolloutInfo {
    pub name: Option<String>,
    pub namespace: Option<String>,
    pub stages: Vec<RolloutStage>,
    pub plan_ref: Option<String>,
    pub cluster_ref: Option<String>,
    pub status: Option<RolloutStatus>,
}

/// Name of the rollout created for a plan.
pub fn rollout_name_for_plan(plan_name: &str) -> (r: String)
    ensures
        r@ == plan_name@ + "-rollout"@,
{
    let mut s = owned(plan_name);
    s.append("-rollout");
    s
}

/// Why approving a stage is refused, if it is.
pub open spec fn approval_refusal(phase: Seq<char>, current: i32, approved: i32, stage: i32, stage_count: nat) -> Option<u16> {
    if stage < 0 || stage >= stage_count {
        Some(400)
    } else if stage != current {
        Some(400)
    } else if phase == "Completed"@ {
        Some(409)
    } else if phase == "Failed"@ {
        Some(409)
    } else if approved >= stage && phase != "AwaitingApproval"@ {
        Some(409)
    } else {
        None
    }
}

/// Only the current stage of a rollout that is neither completed nor failed can be
/// approved, and it must be one of its stages.
pub proof fn law_only_current_stage_approvable(phase: Seq<char>, current: i32, approved: i32, stage: i32, stage_count: nat)
    requires
        approval_refusal(phase, current, approved, stage, stage_count) is None,
    ensures
        stage == current,
        0 <= stage < stage_count,
        phase != "Completed"@,
        phase != "Failed"@,
        approved < stage || phase == "AwaitingApproval"@,
{
}

/// Message of a refused approval.
pub open spec fn approval_message(phase: Seq<char>, current: i32, approved: i32, stage: i32, stage_count: nat) -> Seq<char> {
    if stage < 0 || stage >= stage_count {
        "stage index "@ + int_text(stage as int) + " out of range (0.."@ + crate::text::decimal(stage_count) + ")"@
    } else if stage != current {
        "can only approve current stage "@ + int_text(current as int) + "; requested "@ + int_text(stage as int)
    } else if phase == "Completed"@ {
        "rollout already completed"@
    } else if phase == "Failed"@ {
        "rollout failed; fix or delete before approving"@
    } else {
        "stage "@ + int_text(stage as int) + " already approved"@
    }
}

/// Decimal text of an integer, with a minus sign when negative.
pub open spec fn int_text(n: int) -> Seq<char> {
    if n < 0 {
        "-"@ + crate::text::decimal((-n) as nat)
    } else {
        crate::text::decimal(n as nat)
    }
}

/// Decimal text of an integer.
pub fn int_to_text(n: i32) -> (r: String)
    ensures
        r@ == int_text(n as int),
{
    if n < 0 {
        let m: u32 = if n == i32::MIN {
            2147483648u32
        } else {
            (-n) as u32
        };
        let mut s = owned("-");
        let d = crate::text::decimal_text(m as u64);
        s.append(d.as_str());
        s
    } else {
        crate::text::decimal_text(n as u64)
    }
}

/// Decimal text of a 64-bit integer.
pub fn long_to_text(n: i64) -> (r: String)
    ensures
        r@ == int_text(n as int),
{
    if n < 0 {
        let m: u64 = if n == i64::MIN {
            9223372036854775808u64
        } else {
            (-n) as u64
        };
        let mut s = owned("-");
        let d = crate::text::decimal_text(m);
        s.append(d.as_str());
        s
    } else {
        crate::text::decimal_text(n as u64)
    }
}

/// Whether approving `stage` of a rollout with `stage_count` stages and this status is
/// allowed: the stage must exist and be the current one, the rollout must not be completed
/// or failed, and the stage must not be approved already unless the rollout awaits approval.
pub fn validate_approval(status: &RolloutStatus, stage_to_approve: i32, stage_count: usize) -> (r: Result<(), ApiError>)
    ensures
        match approval_refusal(status.phase@, status.current_stage, status.approved_stage, stage_to_approve, stage_count as nat) {
            None => r is Ok,
            Some(code) => r matches Err(e) && e.status == code && e.message@ == approval_message(
                status.phase@,
                status.current_stage,
                status.approved_stage,
                stage_to_approve,
                stage_count as nat,
            ),
        },
{
    if stage_to_approve < 0 || stage_to_approve as usize >= stage_count {
        let mut m = owned("stage index ");
        let a = int_to_text(stage_to_approve);
        m.append(a.as_str());
        m.append(" out of range (0..");
        let b = crate::text::decimal_text(stage_count as u64);
        m.append(b.as_str());
        m.append(")");
        return Err(ApiError { status: 400, message: m });
    }
    if stage_to_approve != status.current_stage {
        let mut m = owned("can only approve current stage ");
        let a = int_to_text(status.current_stage);
        m.append(a.as_str());
        m.append("; requested ");
        let b = int_to_text(stage_to_approve);
        m.append(b.as_str());
        return Err(ApiError { status: 400, message: m });
    }
    if str_eq(status.phase.as_str(), "Completed") {
        return Err(ApiError { status: 409, message: owned("rollout already completed") });
    }
    if str_eq(status.phase.as_str(), "Failed") {
        return Err(ApiError { status: 409, message: owned("rollout failed; fix or delete before approving") });
    }
    if status.approved_stage >= stage_to_approve && !str_eq(status.phase.as_str(), "AwaitingApproval") {
        let mut m = owned("stage ");
        let a = int_to_text(stage_to_approve);
        m.append(a.as_str());
        m.append(" already approved");
        return Err(ApiError { status: 409, message: m });
    }
    Ok(())
}

/// Phase written with an approval: a rolled-back rollout starts again as pending.
pub fn approval_phase(phase: &str) -> (r: String)
    ensures
        r@ == if phase@ == "RolledBack"@ { "Pending"@ } else { phase@ },
{
    if str_eq(phase, "RolledBack") {
        owned("Pending")
    } else {
        owned(phase)
    }
}

/// What an approval writes: the stage approved and the phase set with it.
#[derive(Debug)]
pub struct ApprovalPatch {
    pub stage: i32,
    pub phase: String,
}

/// Stage an approval request is about: the one it names, else the current one.
pub open spec fn requested_stage(requested: Option<i32>, current: i32) -> i32 {
    match requested {
        Some(s) => s,
        None => current,
    }
}

/// The approval a request asks of a rollout with `stage_count` stages: refused with 409
/// while the rollout has no status, else checked as [`validate_approval`] does, for the
/// requested stage or the current one.
pub fn approval_patch(status: Option<&RolloutStatus>, requested: Option<i32>, stage_count: usize) -> (r: Result<ApprovalPatch, ApiError>)
    ensures
        match status {
            None => r matches Err(e) && e.status == 409 && e.message@ == "rollout has no status yet"@,
            Some(st) => {
                let stage = requested_stage(requested, st.current_stage);
                match approval_refusal(st.phase@, st.current_stage, st.approved_stage, stage, stage_count as nat) {
                    None => r matches Ok(p) && p.stage == stage && p.phase@ == (if st.phase@ == "RolledBack"@ {
                        "Pending"@
                    } else {
                        st.phase@
                    }),
                    Some(code) => r matches Err(e) && e.status == code && e.message@ == approval_message(
                        st.phase@,
                        st.current_stage,
                        st.approved_stage,
                        stage,
                        stage_count as nat,
                    ),
                }
            },
        },
{
    let st = match status {
        Some(st) => st,
        None => return Err(ApiError { status: 409, message: owned("rollout has no status yet") }),
    };
    let stage = match requested {
        Some(s) => s,
        None => st.current_stage,
    };
    match validate_approval(st, stage, stage_count) {
        Ok(()) => Ok(ApprovalPatch { stage, phase: approval_phase(st.phase.as_str()) }),
        Err(e) => Err(e),
    }
}

/// Refusal of a rollout creation when the plan's rollout already exists.
pub fn rollout_exists_error(namespace: &str, rollout_name: &str) -> (r: ApiError)
    ensures
        r.status == 409,
        r.message@ == "Rollout "@ + namespace@ + "/"@ + rollout_name@ + " already exists"@,
{
    let mut m = owned("Rollout ");
    m.append(namespace);
    m.append("/");
    m.append(rollout_name);
    m.append(" already exists");
    ApiError { status: 409, message: m }
}

/// A rollout change pushed to live subscribers.
#[derive(Debug)]
pub struct RolloutEvent {
    pub namespace: String,
    pub name: String,
    pub phase: String,
    pub current_stage: i32,
    pub approved_stage: i32,
    pub cluster_ref: Option<String>,
    pub plan_ref: Option<String>,
}

/// Event of a rollout with a name: its namespace defaults to `default`; without a status
/// its phase is `Unknown`, its current stage 0 and its approved stage -1.
pub fn rollout_event(r: &RolloutInfo) -> (e: Option<RolloutEvent>)
    ensures
        r.name is None <==> e is None,
        e matches Some(ev) ==> {
            &&& Some(ev.name) == r.name
            &&& ev.namespace@ == match r.namespace {
                Some(n) => n@,
                None => "default"@,
            }
            &&& ev.phase@ == match r.status {
                Some(st) => st.phase@,
                None => "Unknown"@,
            }
            &&& ev.current_stage == match r.status {
                Some(st) => st.current_stage,
                None => 0,
            }
            &&& ev.approved_stage == match r.status {
                Some(st) => st.approved_stage,
                None => -1i32,
            }
            &&& ev.cluster_ref == r.cluster_ref
            &&& ev.plan_ref == r.plan_ref
        },
{
    let name = match &r.name {
        Some(n) => n.clone(),
        None => return None,
    };
    let namespace = match &r.namespace {
        Some(n) => n.clone(),
        None => owned("default"),
    };
    let (phase, current_stage, approved_stage) = match &r.status {
        Some(st) => (st.phase.clone(), st.current_stage, st.approved_stage),
        None => (owned("Unknown"), 0i32, -1i32),
    };
    Some(RolloutEvent {
        namespace,
        name,
        phase,
        current_stage,
        approved_stage,
        cluster_ref: crate::model::clone_opt_string(&r.cluster_ref),
        plan_ref: crate::model::clone_opt_string(&r.plan_ref),
    })
}

/// What an approval from the command line writes, straight to the cluster: the requested
/// stage or the current one, with a rolled-back rollout starting again as pending. The
/// operator judges the approval; nothing is checked here.
pub fn direct_approval_patch(status: &RolloutStatus, requested: Option<i32>) -> (r: ApprovalPatch)
    ensures
        r.stage == requested_stage(requested, status.current_stage),
        r.phase@ == (if status.phase@ == "RolledBack"@ { "Pending"@ } else { status.phase@ }),
{
    let stage = match requested {
        Some(s) => s,
        None => status.current_stage,
    };
    ApprovalPatch { stage, phase: approval_phase(status.phase.as_str()) }
}

/// Status lines the command line prints for a rollout: its phase, stages and counters, and
/// the stage awaiting approval by name (`?` when there is no such stage).
pub fn rollout_status_lines(namespace: &str, name: &str, status: &RolloutStatus, stage_names: &Vec<String>) -> (r: Vec<String>)
    ensures
        r@.len() == if status.phase@ == "AwaitingApproval"@ { 2int } else { 1int },
        r@[0]@ == "rollout "@ + namespace@ + "/"@ + name@ + ": phase="@ + status.phase@ + " currentStage="@ + int_text(
            status.current_stage as int,
        ) + " approvedStage="@ + int_text(status.approved_stage as int) + " stages="@ + crate::text::decimal(
            stage_names@.len(),
        ),
        status.phase@ == "AwaitingApproval"@ ==> r@[1]@ == "awaiting approval for stage "@ + int_text(status.current_stage as int)
            + " ("@ + (if 0 <= status.current_stage < stage_names@.len() {
            stage_names@[status.current_stage as int]@
        } else {
            "?"@
        }) + ")"@,
{
    let mut first = owned("rollout ");
    first.append(namespace);
    first.append("/");
    first.append(name);
    first.append(": phase=");
    first.append(status.phase.as_str());
    first.append(" currentStage=");
    let c = int_to_text(status.current_stage);
    first.append(c.as_str());
    first.append(" approvedStage=");
    let a = int_to_text(status.approved_stage);
    first.append(a.as_str());
    first.append(" stages=");
    let n = crate::text::decimal_text(stage_names.len() as u64);
    first.append(n.as_str());
    let mut lines: Vec<String> = Vec::new();
    lines.push(first);
    if str_eq(status.phase.as_str(), "AwaitingApproval") {
        let mut second = owned("awaiting approval for stage ");
        second.append(c.as_str());
        second.append(" (");
        if status.current_stage >= 0 && (status.current_stage as usize) < stage_names.len() {
            second.append(stage_names[status.current_stage as usize].as_str());
        } else {
            second.append("?");
        }
        second.append(")");
        lines.push(second);
    }
    lines
}

/// The actor of an action: the one the request names, else the authenticated user, else
/// the given default.
pub fn choose_actor(requested: Option<String>, authenticated: Option<String>, default: &str) -> (r: String)
    ensures
        r@ == match requested {
            Some(a) => a@,
            None => match authenticated {
                Some(u) => u@,
                None => default@,
            },
        },
{
    match requested {
        Some(a) => a,
        None => match authenticated {
            Some(u) => u,
            None => owned(default),
        },
    }
}

/// One rollout of the list.
#[derive(Debug)]
pub struct RolloutListItem {
    pub name: String,
    pub namespace: String,
    pub phase: String,
    pub current_stage: i32,
    pub approved_stage: i32,
    pub stage_count: usize,
    pub plan_ref: Option<String>,
    pub cluster_ref: Option<String>,
    pub awaiting_approval: bool,
}

/// List item of a rollout with a name and a status; its namespace defaults to `default`.
pub fn rollout_to_list_item(rollout: &RolloutInfo) -> (r: Option<RolloutListItem>)
    ensures
        (rollout.name is Some && rollout.status is Some) <==> r is Some,
        r matches Some(item) ==> {
            let st = rollout.status->0;
            &&& item.name@ == rollout.name->0@
            &&& item.namespace@ == match rollout.namespace {
                Some(n) => n@,
                None => "default"@,
            }
            &&& item.phase@ == st.phase@
            &&& item.current_stage == st.current_stage
            &&& item.approved_stage == st.approved_stage
            &&& item.stage_count == rollout.stages@.len()
            &&& item.plan_ref == rollout.plan_ref
            &&& item.cluster_ref == rollout.cluster_ref
            &&& item.awaiting_approval == (st.phase@ == "AwaitingApproval"@)
        },
{
    let name = match &rollout.name {
        Some(n) => n.clone(),
        None => return None,
    };
    let status = match &rollout.status {
        Some(s) => s,
        None => return None,
    };
    let namespace = match &rollout.namespace {
        Some(n) => n.clone(),
        None => owned("default"),
    };
    Some(RolloutListItem {
        name,
        namespace,
        phase: status.phase.clone(),
        current_stage: status.current_stage,
        approved_stage: status.approved_stage,
        stage_count: rollout.stages.len(),
        plan_ref: crate::model::clone_opt_string(&rollout.plan_ref),
        cluster_ref: crate::model::clone_opt_string(&rollout.cluster_ref),
        awaiting_approval: str_eq(status.phase.as_str(), "AwaitingApproval"),
    })
}

/// A rollout without a cluster reference matches every cluster.
pub fn rollout_matches_cluster(item: &RolloutListItem, cluster_ref: &str) -> (r: bool)
    ensures
        r == match item.cluster_ref {
            Some(c) => c@ == cluster_ref@,
            None => true,
        },
{
    match &item.cluster_ref {
        Some(c) => str_eq(c.as_str(), cluster_ref),
        None => true,
    }
}

/// Display label of a stage type.
pub open spec fn stage_label(t: RolloutStageType) -> Seq<char> {
    match t {
        RolloutStageType::InstallAmbientComponents => "Install ambient components"@,
        RolloutStageType::EnrollNamespace => "Enroll namespace"@,
        RolloutStageType::DeployWaypoint => "Deploy waypoint"@,
        RolloutStageType::LabelNamespace => "Label namespace"@,
        RolloutStageType::TranslatePolicy => "Translate policy"@,
        RolloutStageType::RollingRestart => "Rolling restart"@,
        RolloutStageType::RemoveInjection => "Remove injection"@,
        RolloutStageType::VerifyTraffic => "Verify traffic"@,
        RolloutStageType::DryRun => "Dry run"@,
    }
}

pub fn stage_type_label(t: RolloutStageType) -> (r: &'static str)
    ensures
        r@ == stage_label(t),
{
    match t {
        RolloutStageType::InstallAmbientComponents => "Install ambient components",
        RolloutStageType::EnrollNamespace => "Enroll namespace",
        RolloutStageType::DeployWaypoint => "Deploy waypoint",
        RolloutStageType::LabelNamespace => "Label namespace",
        RolloutStageType::TranslatePolicy => "Translate policy",
        RolloutStageType::RollingRestart => "Rolling restart",
        RolloutStageType::RemoveInjection => "Remove injection",
        RolloutStageType::VerifyTraffic => "Verify traffic",
        RolloutStageType::DryRun => "Dry run",
    }
}

/// A stage with the result recorded for it.
#[derive(Debug)]
pub struct RolloutStageView {
    pub index: i32,
    pub name: String,
    pub stage_type: String,
    pub namespaces: Vec<String>,
    pub requires_approval: bool,
    pub result_phase: Option<String>,
    pub result_message: Option<String>,
}

/// First result recorded under a stage name.
pub open spec fn result_for(results: Seq<StageResult>, name: Seq<char>) -> Option<StageResult>
    decreases results.len(),
{
    if results.len() == 0 {
        None
    } else if results[0].name@ == name {
        Some(results[0])
    } else {
        result_for(results.drop_first(), name)
    }
}

/// Results of a rollout status, none without a status.
pub open spec fn status_results(status: Option<&RolloutStatus>) -> Seq<StageResult> {
    match status {
        Some(s) => s.stage_results@,
        None => Seq::empty(),
    }
}

/// `v` is the view of stage `i` with its result.
pub open spec fn stage_view_of(v: RolloutStageView, i: int, stage: RolloutStage, results: Seq<StageResult>) -> bool {
    let res = result_for(results, stage.name@);
    &&& v.index == i
    &&& v.name@ == stage.name@
    &&& v.stage_type@ == stage_label(stage.stage_type)
    &&& strings_view(v.namespaces@) == strings_view(stage.namespaces@)
    &&& v.requires_approval == stage.requires_approval
    &&& crate::model::opt_view(v.result_phase) == match res {
        Some(r) => Some(r.phase@),
        None => None,
    }
    &&& crate::model::opt_view(v.result_message) == match res {
        Some(r) => crate::model::opt_view(r.message),
        None => None,
    }
}

fn find_result<'a>(results: &'a Vec<StageResult>, name: &str) -> (r: Option<&'a StageResult>)
    ensures
        match r {
            Some(x) => result_for(results@, name@) == Some(*x),
            None => result_for(results@, name@) is None,
        },
{
    let mut i: usize = 0;
    assert(results@.subrange(0, results@.len() as int) =~= results@);
    while i < results.len()
        invariant
            i <= results@.len(),
            result_for(results@, name@) == result_for(results@.subrange(i as int, results@.len() as int), name@),
        decreases results@.len() - i,
    {
        let ghost rest = results@.subrange(i as int, results@.len() as int);
        assert(rest[0] == results@[i as int]);
        assert(rest.drop_first() =~= results@.subrange(i + 1, results@.len() as int));
        if str_eq(results[i].name.as_str(), name) {
            return Some(&results[i]);
        }
        i += 1;
    }
    None
}

fn copy_texts(v: &Vec<String>) -> (r: Vec<String>)
    ensures
        strings_view(r@) == strings_view(v@),
{
    let mut out: Vec<String> = Vec::new();
    let mut j: usize = 0;
    while j < v.len()
        invariant
            j <= v@.len(),
            strings_view(out@) == strings_view(v@).take(j as int),
        decreases v@.len() - j,
    {
        let ghost before = out@;
        out.push(v[j].clone());
        assert(strings_view(out@) =~= strings_view(before).push(v@[j as int]@));
        j += 1;
        assert(strings_view(v@).take(j as int) =~= strings_view(v@).take(j - 1).push(v@[j - 1]@));
    }
    assert(strings_view(v@).take(v@.len() as int) =~= strings_view(v@));
    out
}

/// Each stage with its index, label and the result recorded under its name.
pub fn stages_with_results(stages: &Vec<RolloutStage>, status: Option<&RolloutStatus>) -> (r: Vec<RolloutStageView>)
    requires
        stages@.len() <= i32::MAX,
    ensures
        r@.len() == stages@.len(),
        forall|i: int| 0 <= i < stages@.len() ==> stage_view_of(#[trigger] r@[i], i, stages@[i], status_results(status)),
{
    let empty: Vec<StageResult> = Vec::new();
    let results = match status {
        Some(s) => &s.stage_results,
        None => &empty,
    };
    let mut out: Vec<RolloutStageView> = Vec::new();
    let mut i: usize = 0;
    while i < stages.len()
        invariant
            stages@.len() <= i32::MAX,
            results@ == status_results(status),
            i <= stages@.len(),
            out@.len() == i,
            forall|t: int| 0 <= t < i ==> stage_view_of(#[trigger] out@[t], t, stages@[t], status_results(status)),
        decreases stages@.len() - i,
    {
        let stage = &stages[i];
        let res = find_result(results, stage.name.as_str());
        let (result_phase, result_message) = match res {
            Some(x) => (Some(x.phase.clone()), crate::model::clone_opt_string(&x.message)),
            None => (None, None),
        };
        out.push(RolloutStageView {
            index: i as i32,
            name: stage.name.clone(),
            stage_type: owned(stage_type_label(stage.stage_type)),
            namespaces: copy_texts(&stage.namespaces),
            requires_approval: stage.requires_approval,
            result_phase,
            result_message,
        });
        i += 1;
    }
    out
}

/// Phase a rollout gives the namespaces of its stages; the empty text without a status.
pub open spec fn rollout_phase_text(r: RolloutInfo) -> Seq<char> {
    match r.status {
        Some(s) => s.phase@,
        None => Seq::empty(),
    }
}

/// Whether a rollout targets the cluster: its non-empty cluster reference names it, or,
/// without one, the cluster is the hub itself.
pub open spec fn targets_cluster(r: RolloutInfo, cluster_ref: Seq<char>, hub_local: bool) -> bool {
    match r.cluster_ref {
        Some(c) if c@.len() > 0 => c@ == cluster_ref,
        _ => hub_local,
    }
}

/// Map from each namespace of a list of stages to a phase, stage by stage and namespace
/// by namespace, a later entry replacing an earlier one.
pub open spec fn stage_phases(m: Map<Seq<char>, Seq<char>>, stages: Seq<RolloutStage>, phase: Seq<char>) -> Map<Seq<char>, Seq<char>>
    decreases stages.len(),
{
    if stages.len() == 0 {
        m
    } else {
        names_phase(stage_phases(m, stages.drop_last(), phase), strings_view(stages.last().namespaces@), phase)
    }
}

/// `m` with each name of a list set to a phase.
pub open spec fn names_phase(m: Map<Seq<char>, Seq<char>>, names: Seq<Seq<char>>, phase: Seq<char>) -> Map<Seq<char>, Seq<char>>
    decreases names.len(),
{
    if names.len() == 0 {
        m
    } else {
        names_phase(m, names.drop_last(), phase).insert(names.last(), phase)
    }
}

/// Phase of the rollouts targeting a cluster, per target namespace; a later rollout
/// replaces an earlier one.
pub open spec fn rollout_phases(rollouts: Seq<RolloutInfo>, cluster_ref: Seq<char>, hub_local: bool) -> Map<Seq<char>, Seq<char>>
    decreases rollouts.len(),
{
    if rollouts.len() == 0 {
        Map::empty()
    } else {
        let p = rollout_phases(rollouts.drop_last(), cluster_ref, hub_local);
        let r = rollouts.last();
        if targets_cluster(r, cluster_ref, hub_local) {
            stage_phases(p, r.stages@, rollout_phase_text(r))
        } else {
            p
        }
    }
}

/// Hub rollout phases keyed by target namespace, for the rollouts that target the cluster.
/// `hub_local` says whether the cluster reference names the hub itself.
pub fn rollout_ns_status(rollouts: &Vec<RolloutInfo>, cluster_ref: &str, hub_local: bool) -> (r: Labels)
    ensures
        r@ == rollout_phases(rollouts@, cluster_ref@, hub_local),
{
    let mut map = Labels::new();
    let mut i: usize = 0;
    while i < rollouts.len()
        invariant
            i <= rollouts@.len(),
            map@ == rollout_phases(rollouts@.take(i as int), cluster_ref@, hub_local),
        decreases rollouts@.len() - i,
    {
        assert(rollouts@.take(i + 1).drop_last() =~= rollouts@.take(i as int));
        let r = &rollouts[i];
        let targets = match &r.cluster_ref {
            Some(c) => if c.unicode_len() > 0 {
                str_eq(c.as_str(), cluster_ref)
            } else {
                hub_local
            },
            None => hub_local,
        };
        if targets {
            let phase = match &r.status {
                Some(s) => s.phase.clone(),
                None => String::new(),
            };
            let ghost base = map@;
            let mut s: usize = 0;
            while s < r.stages.len()
                invariant
                    s <= r.stages@.len(),
                    map@ == stage_phases(base, r.stages@.take(s as int), phase@),
                decreases r.stages@.len() - s,
            {
                assert(r.stages@.take(s + 1).drop_last() =~= r.stages@.take(s as int));
                let stage = &r.stages[s];
                let ghost mid = map@;
                let ghost names = strings_view(stage.namespaces@);
                let mut t: usize = 0;
                while t < stage.namespaces.len()
                    invariant
                        names == strings_view(stage.namespaces@),
                        t <= names.len(),
                        map@ == names_phase(mid, names.take(t as int), phase@),
                    decreases names.len() - t,
                {
                    assert(names.take(t + 1).drop_last() =~= names.take(t as int));
                    map.insert(stage.namespaces[t].clone(), phase.clone());
                    t += 1;
                }
                assert(names.take(names.len() as int) =~= names);
                s += 1;
            }
            assert(r.stages@.take(r.stages@.len() as int) =~= r.stages@);
        }
        i += 1;
    }
    assert(rollouts@.take(rollouts@.len() as int) =~= rollouts@);
    map
}


/// `item` is the list entry of `rollout`: its name, its namespace (`default` when it has
/// none), its status counters and phase, its stage count and references.
pub open spec fn list_item_of(item: RolloutListItem, rollout: RolloutInfo) -> bool {
    &&& rollout.name is Some && rollout.status is Some
    &&& item.name@ == rollout.name->0@
    &&& item.namespace@ == match rollout.namespace {
        Some(n) => n@,
        None => "default"@,
    }
    &&& item.phase@ == rollout.status->0.phase@
    &&& item.current_stage == rollout.status->0.current_stage
    &&& item.approved_stage == rollout.status->0.approved_stage
    &&& item.stage_count == rollout.stages@.len()
    &&& item.plan_ref == rollout.plan_ref
    &&& item.cluster_ref == rollout.cluster_ref
    &&& item.awaiting_approval == (rollout.status->0.phase@ == "AwaitingApproval"@)
}

/// The rollouts a cluster's list shows, in order: those with a name and a status whose
/// cluster reference, when they have one, is that cluster.
pub open spec fn listed_rollouts(rs: Seq<RolloutInfo>, cluster_ref: Seq<char>) -> Seq<RolloutInfo>
    decreases rs.len(),
{
    if rs.len() == 0 {
        Seq::empty()
    } else {
        let p = listed_rollouts(rs.drop_last(), cluster_ref);
        let r = rs.last();
        let matches = match r.cluster_ref {
            Some(c) => c@ == cluster_ref,
            None => true,
        };
        if r.name is Some && r.status is Some && matches {
            p.push(r)
        } else {
            p
        }
    }
}

/// List entries of the rollouts a cluster's list shows, in the given order.
pub fn listed_rollout_items(rollouts: &Vec<RolloutInfo>, cluster_ref: &str) -> (r: Vec<RolloutListItem>)
    ensures
        r@.len() == listed_rollouts(rollouts@, cluster_ref@).len(),
        forall|k: int| 0 <= k < r@.len() ==> list_item_of(#[trigger] r@[k], listed_rollouts(rollouts@, cluster_ref@)[k]),
{
    let mut out: Vec<RolloutListItem> = Vec::new();
    let mut i: usize = 0;
    while i < rollouts.len()
        invariant
            i <= rollouts@.len(),
            out@.len() == listed_rollouts(rollouts@.take(i as int), cluster_ref@).len(),
            forall|k: int| 0 <= k < out@.len() ==> list_item_of(#[trigger] out@[k], listed_rollouts(rollouts@.take(i as int), cluster_ref@)[k]),
        decreases rollouts@.len() - i,
    {
        let ghost prev = listed_rollouts(rollouts@.take(i as int), cluster_ref@);
        proof {
            assert(rollouts@.take(i + 1).drop_last() =~= rollouts@.take(i as int));
            assert(rollouts@.take(i + 1).last() == rollouts@[i as int]);
        }
        match rollout_to_list_item(&rollouts[i]) {
            Some(item) => {
                if rollout_matches_cluster(&item, cluster_ref) {
                    out.push(item);
                    proof {
                        let now = listed_rollouts(rollouts@.take(i + 1), cluster_ref@);
                        assert(now == prev.push(rollouts@[i as int]));
                        assert forall|k: int| 0 <= k < out@.len() implies list_item_of(#[trigger] out@[k], now[k]) by {
                            if k < prev.len() {
                                assert(now[k] == prev[k]);
                            }
                        }
                    }
                }
            },
            None => {},
        }
        i += 1;
    }
    proof {
        assert(rollouts@.take(rollouts@.len() as int) =~= rollouts@);
    }
    out
}

/// Sort keys of rollout list entries: namespace, then name.
pub open spec fn rollout_keys(items: Seq<RolloutListItem>) -> Seq<(Seq<char>, Seq<char>)> {
    items.map_values(|r: RolloutListItem| (r.namespace@, r.name@))
}

/// Rollout list entries in ascending order of namespace, then name, equal keys in their
/// given order.
pub fn sort_rollout_items(items: Vec<RolloutListItem>) -> (r: Vec<RolloutListItem>)
    ensures
        exists|ord: Seq<usize>|
            #![trigger stable_sorted(rollout_keys(items@), ord)]
            stable_sorted(rollout_keys(items@), ord) && r@.len() == items@.len() && forall|t: int|
                0 <= t < r@.len() ==> #[trigger] r@[t] == items@[ord[t] as int],
{
    let mut keys: Vec<(String, String)> = Vec::new();
    let mut j: usize = 0;
    while j < items.len()
        invariant
            j <= items@.len(),
            keys@.len() == j,
            forall|q: int| 0 <= q < j ==> (#[trigger] keys@[q]).0@ == items@[q].namespace@ && keys@[q].1@ == items@[q].name@,
        decreases items@.len() - j,
    {
        keys.push((items[j].namespace.clone(), items[j].name.clone()));
        j += 1;
    }
    assert(keys_view(keys@) =~= rollout_keys(items@));
    let ord = stable_order(&keys);
    let ghost iv = items@;
    let r = apply_order(items, &ord);
    assert(stable_sorted(rollout_keys(iv), ord@));
    r
}

/// A rollout with its stages and what its status reports.
#[derive(Debug)]
pub struct RolloutDetail {
    pub rollout: RolloutListItem,
    pub stages: Vec<RolloutStageView>,
    pub auto_rollback: bool,
    pub resolved_mesh_target: Option<crate::model::MeshInstance>,
    pub conditions: Vec<crate::requests::RolloutConditionView>,
}

/// Detail of a rollout: its list entry and its stages with their results, with the
/// rollback setting of its spec and the mesh and conditions its status reports. A rollout
/// without a name or a status has no detail yet (404).
pub fn rollout_detail(
    rollout: &RolloutInfo,
    auto_rollback: bool,
    resolved_mesh_target: Option<crate::model::MeshInstance>,
    conditions: Vec<crate::requests::RolloutConditionView>,
) -> (r: Result<RolloutDetail, ApiError>)
    requires
        rollout.stages@.len() <= i32::MAX,
    ensures
        r is Ok <==> (rollout.name is Some && rollout.status is Some),
        r matches Err(e) ==> e.status == 404 && e.message@ == "rollout has no status yet"@,
        r matches Ok(d) ==> {
            &&& list_item_of(d.rollout, *rollout)
            &&& d.stages@.len() == rollout.stages@.len()
            &&& forall|i: int| 0 <= i < rollout.stages@.len() ==> stage_view_of(#[trigger] d.stages@[i], i, rollout.stages@[i], rollout.status->0.stage_results@)
            &&& d.auto_rollback == auto_rollback
            &&& d.resolved_mesh_target == resolved_mesh_target
            &&& d.conditions == conditions
        },
{
    let item = match rollout_to_list_item(rollout) {
        Some(i) => i,
        None => return Err(ApiError { status: 404, message: owned("rollout has no status yet") }),
    };
    let stages = stages_with_results(&rollout.stages, rollout.status.as_ref());
    Ok(RolloutDetail { rollout: item, stages, auto_rollback, resolved_mesh_target, conditions })
}

/// Lines the command line prints for a rollout read through the API: its phase and stage
/// counters, and the stage awaiting approval when there is one.
pub fn rollout_detail_lines(item: &RolloutListItem) -> (r: Vec<String>)
    ensures
        r@.len() == if item.awaiting_approval { 2int } else { 1int },
        r@[0]@ == "rollout "@ + item.namespace@ + "/"@ + item.name@ + ": phase="@ + item.phase@ + " currentStage="@ + int_text(
            item.current_stage as int,
        ) + " approvedStage="@ + int_text(item.approved_stage as int),
        item.awaiting_approval ==> r@[1]@ == "awaiting approval for stage "@ + int_text(item.current_stage as int),
{
    let mut first = owned("rollout ");
    first.append(item.namespace.as_str());
    first.append("/");
    first.append(item.name.as_str());
    first.append(": phase=");
    first.append(item.phase.as_str());
    first.append(" currentStage=");
    let c = int_to_text(item.current_stage);
    first.append(c.as_str());
    first.append(" approvedStage=");
    let a = int_to_text(item.approved_stage);
    first.append(a.as_str());
    let mut lines: Vec<String> = Vec::new();
    lines.push(first);
    if item.awaiting_approval {
        let mut second = owned("awaiting approval for stage ");
        second.append(c.as_str());
        lines.push(second);
    }
    lines
}

} // verus!
