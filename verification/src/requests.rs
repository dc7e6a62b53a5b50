//! Requests and answers of the HTTP API: queries with their defaults, login and OIDC
//! callback parameters, mesh instance listings, plan sync status and rollout answers.

use vstd::prelude::*;

use crate::dashboard_flow::{chosen_cluster_ref, requested_cluster_ref};
use crate::model::{opt_view, MeshEnrollment, MeshInstance};
use crate::plans::{next_action, plan_next_action, trim_text, trimmed, PlanChannelHints};
use crate::rollouts::{ApiError, RolloutListItem};
use crate::stored::ApplicationListQuery;
use crate::sorting::{apply_order, keys_view, stable_order, stable_sorted};
use crate::text::{comma_items, comma_separated, owned, strings_view};

verus! {

/// Query of the application catalog list.
#[derive(Debug)]
pub struct ApplicationsQuery {
    pub cluster_ref: Option<String>,
    pub q: Option<String>,
    pub risk_level: Option<String>,
    pub mesh_revision: Option<String>,
    /// When true (default), hide namespaces already on ambient dataplane.
    pub migration_candidates_only: bool,
    pub page: u32,
    pub page_size: u32,
}

/// Page asked for when none is given.
pub fn default_page() -> (r: u32)
    ensures
        r == 1,
{
    1
}

/// Page size asked for when none is given.
pub fn default_page_size() -> (r: u32)
    ensures
        r == 50,
{
    50
}

/// Whether the list is limited to migration candidates when the query does not say.
pub fn default_migration_candidates_only() -> (r: bool)
    ensures
        r,
{
    true
}

impl ApplicationsQuery {
    /// Catalog query of this request, on the requested cluster or the hub's own.
    pub fn into_list_query(self, hub_default: String) -> (r: ApplicationListQuery)
        ensures
            r.cluster_ref@ == chosen_cluster_ref(opt_view(self.cluster_ref), hub_default@),
            r.search == self.q,
            r.risk_level == self.risk_level,
            r.mesh_revision == self.mesh_revision,
            r.migration_candidates_only == self.migration_candidates_only,
            r.page == self.page,
            r.page_size == self.page_size,
    {
        ApplicationListQuery {
            cluster_ref: requested_cluster_ref(self.cluster_ref, hub_default),
            search: self.q,
            risk_level: self.risk_level,
            mesh_revision: self.mesh_revision,
            migration_candidates_only: self.migration_candidates_only,
            page: self.page,
            page_size: self.page_size,
        }
    }
}

/// Query of one application of the catalog.
#[derive(Debug)]
pub struct ApplicationDetailQuery {
    pub cluster_ref: Option<String>,
}

/// Request to assess the cluster.
#[derive(Debug)]
pub struct AssessRequest {
    pub namespace: Option<String>,
}

/// Catalog query that counts every migration candidate of a cluster: the default query on
/// that cluster.
pub fn candidate_count_query(cluster_ref: &str) -> (r: ApplicationListQuery)
    ensures
        r.cluster_ref@ == cluster_ref@,
        r.search is None,
        r.risk_level is None,
        r.mesh_revision is None,
        r.migration_candidates_only,
        r.page == 1,
        r.page_size == 50,
{
    let mut q = ApplicationListQuery::default();
    q.cluster_ref = owned(cluster_ref);
    q
}

/// Credentials of a local login.
#[derive(Debug)]
pub struct LoginRequest {
    pub username: String,
    pub password: String,
}

/// Token issued by a login.
#[derive(Debug)]
pub struct LoginResponse {
    pub token: String,
}

/// Request to register a local user.
#[derive(Debug)]
pub struct RegisterRequest {
    pub username: String,
    pub password: String,
    pub roles: Vec<String>,
}

/// Roles given to a user registered with the given ones: `viewer` when none is given.
pub fn register_roles(roles: Vec<String>) -> (r: Vec<String>)
    ensures
        strings_view(r@) == if roles@.len() == 0 {
            seq!["viewer"@]
        } else {
            strings_view(roles@)
        },
{
    if roles.len() == 0 {
        let mut v: Vec<String> = Vec::new();
        v.push(owned("viewer"));
        assert(strings_view(v@) =~= seq!["viewer"@]);
        v
    } else {
        roles
    }
}

/// What login methods the portal offers.
#[derive(Debug)]
pub struct AuthConfigResponse {
    pub enabled: bool,
    pub local_login: bool,
    pub oidc_login_url: Option<String>,
    pub require_auth_for_approve: bool,
}

/// Login methods offered: local login and approval checks with the user store, the OIDC
/// login route with an identity provider.
pub fn auth_config_response(auth_enabled: bool, oidc_enabled: bool) -> (r: AuthConfigResponse)
    ensures
        r.enabled == auth_enabled,
        r.local_login == auth_enabled,
        r.require_auth_for_approve == auth_enabled,
        opt_view(r.oidc_login_url) == if oidc_enabled {
            Some("/api/v1/auth/oidc/login"@)
        } else {
            None
        },
{
    AuthConfigResponse {
        enabled: auth_enabled,
        local_login: auth_enabled,
        oidc_login_url: if oidc_enabled {
            Some(owned("/api/v1/auth/oidc/login"))
        } else {
            None
        },
        require_auth_for_approve: auth_enabled,
    }
}

/// Parameters the identity provider sends back to the OIDC callback.
#[derive(Debug)]
pub struct OidcCallbackQuery {
    pub code: Option<String>,
    pub state: Option<String>,
    pub error: Option<String>,
    pub error_description: Option<String>,
}

/// Message of an error the identity provider reported.
pub open spec fn provider_error_message(err: Seq<char>, detail: Option<Seq<char>>) -> Seq<char> {
    trimmed(
        "OIDC error: "@ + err + " "@ + match detail {
            Some(d) => d,
            None => Seq::empty(),
        },
    )
}

/// Code and state of an OIDC callback: refused with 400 when the provider reported an
/// error, or when the code or the state is missing, in that order.
pub fn callback_code_and_state(q: OidcCallbackQuery) -> (r: Result<(String, String), ApiError>)
    ensures
        match r {
            Ok((code, state)) => q.error is None && opt_view(q.code) == Some(code@) && opt_view(q.state) == Some(state@),
            Err(e) => e.status == 400 && e.message@ == if q.error is Some {
                provider_error_message(q.error->0@, opt_view(q.error_description))
            } else if q.code is None {
                "missing code"@
            } else {
                "missing state"@
            },
        },
{
    if let Some(err) = q.error {
        let mut m = owned("OIDC error: ");
        m.append(err.as_str());
        m.append(" ");
        match &q.error_description {
            Some(d) => m.append(d.as_str()),
            None => {},
        }
        let message = trim_text(m.as_str());
        return Err(ApiError { status: 400, message });
    }
    let code = match q.code {
        Some(c) => c,
        None => return Err(ApiError { status: 400, message: owned("missing code") }),
    };
    let state = match q.state {
        Some(s) => s,
        None => return Err(ApiError { status: 400, message: owned("missing state") }),
    };
    Ok((code, state))
}

/// What parsing a URL and appending a `token` query pair to it gives: the resulting URL
/// text, or the parse error's message.
pub uninterp spec fn token_redirect(base: Seq<char>, token: Seq<char>) -> Result<Seq<char>, Seq<char>>;

/// Parse `base` as a URL and append the query pair `token=<token>`.
///
/// Calls `url::Url::parse`, then `query_pairs_mut().append_pair`, and returns the URL's
/// text, or the `to_string` of the parse error. Both are functions of the two texts, named
/// by `token_redirect`.
#[verifier::external_body]
fn append_token_query(base: &str, token: &str) -> (r: Result<String, String>)
    ensures
        match r {
            Ok(u) => token_redirect(base@, token@) == Ok::<Seq<char>, Seq<char>>(u@),
            Err(e) => token_redirect(base@, token@) == Err::<Seq<char>, Seq<char>>(e@),
        },
{
    match url::Url::parse(base) {
        Ok(mut u) => {
            u.query_pairs_mut().append_pair("token", token);
            Ok(u.as_str().to_string())
        },
        Err(e) => Err(e.to_string()),
    }
}

/// How a completed OIDC sign-in answers the browser.
#[derive(Debug)]
pub enum CallbackReply {
    /// Redirect to the portal, with the token in the query.
    Redirect(String),
    /// The token itself.
    Token(LoginResponse),
}

/// Answer to a completed OIDC sign-in given where the browser goes: the token itself when
/// no success URL is configured, a redirect to the success URL with the token appended, or
/// an internal error (500) with the parser's message when that URL did not parse.
pub fn reply_for(token: String, redirect: Option<Result<String, String>>) -> (r: Result<CallbackReply, ApiError>)
    ensures
        match redirect {
            None => r matches Ok(CallbackReply::Token(t)) && t.token == token,
            Some(Ok(u)) => r matches Ok(CallbackReply::Redirect(v)) && v == u,
            Some(Err(m)) => r matches Err(e) && e.status == 500 && e.message == m,
        },
{
    match redirect {
        None => Ok(CallbackReply::Token(LoginResponse { token })),
        Some(Ok(u)) => Ok(CallbackReply::Redirect(u)),
        Some(Err(m)) => Err(ApiError { status: 500, message: m }),
    }
}

/// Answer to a completed OIDC sign-in: the configured success URL, if any, gets the token
/// appended as a query pair.
pub fn callback_reply(token: String, success_redirect: Option<&str>) -> (r: Result<CallbackReply, ApiError>)
    ensures
        match success_redirect {
            None => r matches Ok(CallbackReply::Token(t)) && t.token == token,
            Some(base) => match token_redirect(base@, token@) {
                Ok(u) => r matches Ok(CallbackReply::Redirect(v)) && v@ == u,
                Err(m) => r matches Err(e) && e.status == 500 && e.message@ == m,
            },
        },
{
    let redirect = match success_redirect {
        None => None,
        Some(base) => Some(append_token_query(base, token.as_str())),
    };
    reply_for(token, redirect)
}

/// Query of the mesh instance list.
#[derive(Debug)]
pub struct MeshInstancesQuery {
    pub cluster_ref: Option<String>,
}

/// A mesh control plane offered for rollout targeting.
#[derive(Debug)]
pub struct MeshInstanceListItem {
    pub revision: String,
    pub discovery_label: String,
    pub control_plane_namespace: String,
    pub version: Option<String>,
    pub ambient: bool,
    pub enrolled_namespace_count: usize,
    pub enrollment: MeshEnrollment,
    /// True when this is the only ambient instance (safe to omit rollout.spec.meshTarget).
    pub auto_select: bool,
}

/// Number of ambient instances of a list.
pub open spec fn ambient_instances(s: Seq<MeshInstance>) -> nat
    decreases s.len(),
{
    if s.len() == 0 {
        0
    } else {
        ambient_instances(s.drop_last()) + if s.last().ambient { 1nat } else { 0nat }
    }
}

/// Whether a list item shows a mesh instance, auto-selected as given.
pub open spec fn item_of_instance(item: MeshInstanceListItem, m: MeshInstance, auto_select: bool) -> bool {
    &&& item.revision == m.revision
    &&& item.discovery_label == m.discovery_label
    &&& item.control_plane_namespace == m.control_plane_namespace
    &&& item.version == m.version
    &&& item.ambient == m.ambient
    &&& item.enrolled_namespace_count == m.enrolled_namespace_count
    &&& item.enrollment == m.enrollment
    &&& item.auto_select == auto_select
}

/// List items of mesh instances, in order: when exactly one instance is ambient, that one
/// is marked for automatic selection.
pub fn mesh_instance_items(instances: Vec<MeshInstance>) -> (r: Vec<MeshInstanceListItem>)
    ensures
        r@.len() == instances@.len(),
        forall|k: int|
            0 <= k < instances@.len() ==> item_of_instance(
                #[trigger] r@[k],
                instances@[k],
                ambient_instances(instances@) == 1 && instances@[k].ambient,
            ),
{
    let ghost olds = instances@;
    let mut count: usize = 0;
    let mut i: usize = 0;
    while i < instances.len()
        invariant
            instances@ == olds,
            i <= olds.len(),
            count == ambient_instances(olds.take(i as int)),
            count <= i,
        decreases olds.len() - i,
    {
        assert(olds.take(i + 1).drop_last() =~= olds.take(i as int));
        if instances[i].ambient {
            count += 1;
        }
        i += 1;
    }
    assert(olds.take(olds.len() as int) =~= olds);
    let single = count == 1;
    let mut rest = instances;
    let mut out: Vec<MeshInstanceListItem> = Vec::new();
    while rest.len() > 0
        invariant
            out@.len() + rest@.len() == olds.len(),
            rest@ == olds.subrange(out@.len() as int, olds.len() as int),
            single == (ambient_instances(olds) == 1),
            forall|k: int| 0 <= k < out@.len() ==> item_of_instance(#[trigger] out@[k], olds[k], single && olds[k].ambient),
        decreases rest@.len(),
    {
        let m = rest.remove(0);
        proof {
            assert(m == olds[out@.len() as int]);
            assert(rest@ =~= olds.subrange(out@.len() as int + 1, olds.len() as int));
        }
        let auto_select = single && m.ambient;
        out.push(MeshInstanceListItem {
            revision: m.revision,
            discovery_label: m.discovery_label,
            control_plane_namespace: m.control_plane_namespace,
            version: m.version,
            ambient: m.ambient,
            enrolled_namespace_count: m.enrolled_namespace_count,
            enrollment: m.enrollment,
            auto_select,
        });
    }
    out
}

/// Query of the OpenShift setup wizard.
#[derive(Debug)]
pub struct WizardQuery {
    /// Comma-separated namespaces to include in MemberRoll suggestion.
    pub enroll: Option<String>,
    /// Ambientor install namespace for SCC check.
    pub ambientor_namespace: String,
    pub operator_service_account: String,
}

/// Install namespace checked when the wizard query names none.
pub fn default_ambientor_ns() -> (r: String)
    ensures
        r@ == "ambientor-system"@,
{
    owned("ambientor-system")
}

/// Operator service account checked when the wizard query names none.
pub fn default_operator_sa() -> (r: String)
    ensures
        r@ == "ambientor-operator"@,
{
    owned("ambientor-operator")
}

/// Namespaces the wizard query asks to enroll: the comma-separated items, trimmed, empty
/// ones left out.
pub fn requested_enrollment(enroll: Option<&str>) -> (r: Vec<String>)
    ensures
        strings_view(r@) == match enroll {
            Some(s) => comma_items(s@),
            None => Seq::empty(),
        },
{
    match enroll {
        Some(s) => comma_separated(s),
        None => {
            let v: Vec<String> = Vec::new();
            assert(strings_view(v@) =~= Seq::<Seq<char>>::empty());
            v
        },
    }
}

/// Rendering of a translated policy attached to a plan.
#[derive(Debug)]
pub struct TranslationSummary {
    pub name: String,
    pub phase: String,
    pub source_name: String,
    pub suggested_manifest: Option<String>,
    pub warnings: Vec<String>,
}

/// Observed state of a policy translation resource.
#[derive(Debug)]
pub struct TranslationStatusView {
    pub phase: String,
    pub suggested_manifest: Option<String>,
    pub warnings: Vec<String>,
}

/// Summary of a policy translation with a name and a status.
pub fn translation_summary(name: Option<String>, source_name: String, status: Option<TranslationStatusView>) -> (r: Option<TranslationSummary>)
    ensures
        (name is Some && status is Some) <==> r is Some,
        r matches Some(t) ==> t.name == name->0 && t.source_name == source_name && t.phase == status->0.phase
            && t.suggested_manifest == status->0.suggested_manifest && t.warnings == status->0.warnings,
{
    let name = match name {
        Some(n) => n,
        None => return None,
    };
    let st = match status {
        Some(s) => s,
        None => return None,
    };
    Some(TranslationSummary {
        name,
        phase: st.phase,
        source_name,
        suggested_manifest: st.suggested_manifest,
        warnings: st.warnings,
    })
}

/// State recorded for a VirtualService after an attempt to translate it: ready with the
/// suggested manifest and its warnings, or failed with the reason as its only warning.
pub fn translation_status_of(result: Result<crate::translate::TranslationResult, String>) -> (r: TranslationStatusView)
    ensures
        match result {
            Ok(t) => r.phase@ == "Ready"@ && r.suggested_manifest == Some(t.manifest) && r.warnings == t.warnings,
            Err(e) => r.phase@ == "Failed"@ && r.suggested_manifest is None && r.warnings@ == seq![e],
        },
{
    match result {
        Ok(t) => TranslationStatusView { phase: owned("Ready"), suggested_manifest: Some(t.manifest), warnings: t.warnings },
        Err(e) => {
            let mut w: Vec<String> = Vec::new();
            w.push(e);
            TranslationStatusView { phase: owned("Failed"), suggested_manifest: None, warnings: w }
        },
    }
}

/// Sort keys of translation summaries: the name alone.
pub open spec fn summary_keys(items: Seq<TranslationSummary>) -> Seq<(Seq<char>, Seq<char>)> {
    items.map_values(|t: TranslationSummary| (t.name@, Seq::<char>::empty()))
}

/// Translation summaries in ascending order of name, equal names in their given order.
pub fn sort_translation_summaries(items: Vec<TranslationSummary>) -> (r: Vec<TranslationSummary>)
    ensures
        exists|ord: Seq<usize>|
            #![trigger stable_sorted(summary_keys(items@), ord)]
            stable_sorted(summary_keys(items@), ord) && r@.len() == items@.len() && forall|t: int|
                0 <= t < r@.len() ==> #[trigger] r@[t] == items@[ord[t] as int],
{
    let mut keys: Vec<(String, String)> = Vec::new();
    let mut j: usize = 0;
    while j < items.len()
        invariant
            j <= items@.len(),
            keys@.len() == j,
            forall|q: int| 0 <= q < j ==> (#[trigger] keys@[q]).0@ == items@[q].name@ && keys@[q].1@ == Seq::<char>::empty(),
        decreases items@.len() - j,
    {
        keys.push((items[j].name.clone(), String::new()));
        j += 1;
    }
    assert(keys_view(keys@) =~= summary_keys(items@));
    let ord = stable_order(&keys);
    let ghost iv = items@;
    let r = apply_order(items, &ord);
    assert(stable_sorted(summary_keys(iv), ord@));
    r
}

/// Audit resource of a plan approval.
pub fn plan_audit_resource(namespace: &str, name: &str) -> (r: String)
    ensures
        r@ == "migrationplan/"@ + namespace@ + "/"@ + name@,
{
    let mut s = owned("migrationplan/");
    s.append(namespace);
    s.append("/");
    s.append(name);
    s
}

/// Where a plan stands with its rollout, and what to do next through each channel.
#[derive(Debug)]
pub struct PlanSyncStatus {
    pub rollout_name: Option<String>,
    pub rollout_phase: Option<String>,
    pub rollout_awaiting_approval: bool,
    /// `execute` | `approve_rollout` | `running` | `completed` | `wait_plan` | `failed`
    pub next_action: String,
    pub channels: PlanChannelHints,
}

/// Sync status of a plan with its rollout, when the rollout exists.
pub fn plan_sync_status(
    plan_phase: &str,
    rollout_name: String,
    rollout: Option<&RolloutListItem>,
    channels: PlanChannelHints,
) -> (r: PlanSyncStatus)
    ensures
        opt_view(r.rollout_name) == match rollout {
            Some(_) => Some(rollout_name@),
            None => None,
        },
        opt_view(r.rollout_phase) == match rollout {
            Some(item) => Some(item.phase@),
            None => None,
        },
        r.rollout_awaiting_approval == match rollout {
            Some(item) => item.awaiting_approval,
            None => false,
        },
        r.next_action@ == next_action(
            plan_phase@,
            match rollout {
                Some(item) => Some((item.phase@, item.awaiting_approval)),
                None => None,
            },
        ),
        r.channels == channels,
{
    let next = plan_next_action(plan_phase, rollout);
    match rollout {
        Some(item) => PlanSyncStatus {
            rollout_name: Some(rollout_name),
            rollout_phase: Some(item.phase.clone()),
            rollout_awaiting_approval: item.awaiting_approval,
            next_action: owned(next),
            channels,
        },
        None => PlanSyncStatus {
            rollout_name: None,
            rollout_phase: None,
            rollout_awaiting_approval: false,
            next_action: owned(next),
            channels,
        },
    }
}

/// Who asks for a plan to be executed.
#[derive(Debug)]
pub struct PlanActorRequest {
    pub actor: Option<String>,
}

/// Answer to a plan execution.
#[derive(Debug)]
pub struct ExecutePlanResponse {
    pub plan_namespace: String,
    pub plan_name: String,
    pub plan_approved: bool,
    pub rollout_namespace: String,
    pub rollout_name: String,
    pub rollout_phase: String,
    pub message: String,
    pub sync: PlanSyncStatus,
}

/// Query of the rollout list.
#[derive(Debug)]
pub struct RolloutsQuery {
    pub cluster_ref: Option<String>,
}

/// A condition reported on a rollout.
#[derive(Debug)]
pub struct RolloutConditionView {
    pub condition_type: String,
    pub status: String,
    pub reason: Option<String>,
    pub message: Option<String>,
}

/// Request to approve a rollout stage.
#[derive(Debug)]
pub struct ApproveRolloutRequest {
    /// Stage index to approve; defaults to `currentStage` when omitted.
    pub stage: Option<i32>,
    /// Actor recorded in the audit log (defaults to `api`).
    pub actor: Option<String>,
}

/// Answer to a rollout approval.
#[derive(Debug)]
pub struct ApproveRolloutResponse {
    pub name: String,
    pub namespace: String,
    pub approved_stage: i32,
    pub current_stage: i32,
    pub phase: String,
}

/// Answer to the creation of a rollout from a plan.
#[derive(Debug)]
pub struct CreateRolloutResponse {
    pub name: String,
    pub namespace: String,
}

} // verus!
