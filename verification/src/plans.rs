//! Migration plans: namespace selection, checks against the catalog, mesh target, label
//! preview, default names and the next step of a plan.

use vstd::prelude::*;

use crate::model::MeshInstance;
use crate::rollouts::{ApiError, RolloutListItem};
use crate::sorting::{apply_order, keys_view, stable_order, stable_sorted};
use crate::text::{chars_of, join, join_seq, owned, str_eq, strings_view};

verus! {

/// Unicode white space, as `str::trim` removes it.
pub open spec fn is_white_space(c: char) -> bool {
    ||| ('\u{9}' <= c && c <= '\u{d}')
    ||| c == ' '
    ||| c == '\u{85}'
    ||| c == '\u{a0}'
    ||| c == '\u{1680}'
    ||| ('\u{2000}' <= c && c <= '\u{200a}')
    ||| c == '\u{2028}'
    ||| c == '\u{2029}'
    ||| c == '\u{202f}'
    ||| c == '\u{205f}'
    ||| c == '\u{3000}'
}

/// Number of leading white-space characters.
pub open spec fn leading_space(s: Seq<char>) -> nat
    decreases s.len(),
{
    if s.len() > 0 && is_white_space(s[0]) {
        1 + leading_space(s.drop_first())
    } else {
        0
    }
}

/// Number of trailing white-space characters.
pub open spec fn trailing_space(s: Seq<char>) -> nat
    decreases s.len(),
{
    if s.len() > 0 && is_white_space(s.last()) {
        1 + trailing_space(s.drop_last())
    } else {
        0
    }
}

/// A text without its leading and trailing white space.
pub open spec fn trimmed(s: Seq<char>) -> Seq<char> {
    let a = leading_space(s);
    if a >= s.len() {
        Seq::empty()
    } else {
        let t = s.subrange(a as int, s.len() as int);
        t.subrange(0, t.len() - trailing_space(t))
    }
}

pub proof fn lemma_leading_space(s: Seq<char>)
    ensures
        leading_space(s) <= s.len(),
        forall|i: int| 0 <= i < leading_space(s) ==> is_white_space(#[trigger] s[i]),
        leading_space(s) < s.len() ==> !is_white_space(s[leading_space(s) as int]),
    decreases s.len(),
{
    if s.len() > 0 && is_white_space(s[0]) {
        lemma_leading_space(s.drop_first());
        assert forall|i: int| 0 <= i < leading_space(s) implies is_white_space(#[trigger] s[i]) by {
            if i > 0 {
                assert(s[i] == s.drop_first()[i - 1]);
            }
        }
    }
}

pub proof fn lemma_trailing_space(s: Seq<char>)
    ensures
        trailing_space(s) <= s.len(),
        forall|i: int| s.len() - trailing_space(s) <= i < s.len() ==> is_white_space(#[trigger] s[i]),
        trailing_space(s) < s.len() ==> !is_white_space(s[s.len() - trailing_space(s) - 1]),
    decreases s.len(),
{
    if s.len() > 0 && is_white_space(s.last()) {
        lemma_trailing_space(s.drop_last());
        assert forall|i: int| s.len() - trailing_space(s) <= i < s.len() implies is_white_space(#[trigger] s[i]) by {
            if i < s.len() - 1 {
                assert(s[i] == s.drop_last()[i]);
            }
        }
    }
}

pub(crate) fn white_space(c: char) -> (r: bool)
    ensures
        r == is_white_space(c),
{
    ('\u{9}' <= c && c <= '\u{d}') || c == ' ' || c == '\u{85}' || c == '\u{a0}' || c == '\u{1680}' || ('\u{2000}'
        <= c && c <= '\u{200a}') || c == '\u{2028}' || c == '\u{2029}' || c == '\u{202f}' || c == '\u{205f}' || c
        == '\u{3000}'
}

/// A text without its leading and trailing white space.
pub fn trim_text(s: &str) -> (r: String)
    ensures
        r@ == trimmed(s@),
{
    let cs = chars_of(s);
    let n = cs.len();
    let mut a: usize = 0;
    proof {
        lemma_leading_space(s@);
    }
    while a < n && white_space(cs[a])
        invariant
            cs@ == s@,
            n == s@.len(),
            a <= leading_space(s@),
            forall|i: int| 0 <= i < leading_space(s@) ==> is_white_space(#[trigger] s@[i]),
            leading_space(s@) <= s@.len(),
            leading_space(s@) < s@.len() ==> !is_white_space(s@[leading_space(s@) as int]),
        decreases n - a,
    {
        a += 1;
    }
    if a >= n {
        return String::new();
    }
    let ghost t = s@.subrange(a as int, n as int);
    proof {
        lemma_trailing_space(t);
    }
    let mut b: usize = n;
    while b > a && white_space(cs[b - 1])
        invariant
            cs@ == s@,
            n == s@.len(),
            a < n,
            a == leading_space(s@),
            t == s@.subrange(a as int, n as int),
            a <= b <= n,
            n - b <= trailing_space(t),
            trailing_space(t) <= t.len(),
            forall|i: int| t.len() - trailing_space(t) <= i < t.len() ==> is_white_space(#[trigger] t[i]),
            trailing_space(t) < t.len() ==> !is_white_space(t[t.len() - trailing_space(t) - 1]),
        decreases b,
    {
        assert(cs@[b - 1] == t[b - 1 - a]);
        b -= 1;
    }
    proof {
        if b > a {
            assert(cs@[b - 1] == t[b - 1 - a]);
        }
        assert(n - b == trailing_space(t));
    }
    let r = crate::text::substring(s, a, b);
    assert(r@ =~= trimmed(s@));
    r
}

/// Error of a plan request with an empty selection.
pub open spec fn empty_selection_message() -> Seq<char> {
    "selectedNamespaces must not be empty"@
}

/// The non-empty trimmed names of a selection, in order.
pub open spec fn trimmed_names(sel: Seq<Seq<char>>) -> Seq<Seq<char>>
    decreases sel.len(),
{
    if sel.len() == 0 {
        Seq::empty()
    } else {
        let p = trimmed_names(sel.drop_last());
        if trimmed(sel.last()).len() > 0 {
            p.push(trimmed(sel.last()))
        } else {
            p
        }
    }
}

/// The selected namespaces of a plan request: trimmed, without empty names, each once, in
/// ascending order; refused when the request selects nothing or only blank names.
pub fn normalize_selection(selected: &Vec<String>) -> (r: Result<Vec<String>, ApiError>)
    ensures
        match r {
            Ok(v) => trimmed_names(strings_view(selected@)).len() > 0 && crate::attribution::sorted_set_of(
                strings_view(v@),
                trimmed_names(strings_view(selected@)),
            ),
            Err(e) => trimmed_names(strings_view(selected@)).len() == 0 && e.status == 400 && e.message@
                == empty_selection_message(),
        },
{
    let ghost sv = strings_view(selected@);
    let mut items: Vec<(String, String)> = Vec::new();
    let mut i: usize = 0;
    while i < selected.len()
        invariant
            sv == strings_view(selected@),
            i <= selected@.len(),
            keys_view(items@) == trimmed_names(sv.take(i as int)).map_values(|x: Seq<char>| (x, Seq::<char>::empty())),
        decreases selected@.len() - i,
    {
        assert(sv.take(i + 1).drop_last() =~= sv.take(i as int));
        let t = trim_text(selected[i].as_str());
        if t.unicode_len() > 0 {
            let ghost before = items@;
            items.push((t, String::new()));
            assert(keys_view(items@) =~= keys_view(before).push((trimmed(sv[i as int]), Seq::<char>::empty())));
        }
        i += 1;
    }
    assert(sv.take(sv.len() as int) =~= sv);
    if items.len() == 0 {
        return Err(ApiError { status: 400, message: owned("selectedNamespaces must not be empty") });
    }
    let pairs = crate::deep_analysis::sorted_distinct_pairs(&items);
    let ghost names = trimmed_names(sv);
    let ghost pv = keys_view(pairs@);
    let mut out: Vec<String> = Vec::new();
    let mut q: usize = 0;
    while q < pairs.len()
        invariant
            pv == keys_view(pairs@),
            q <= pairs@.len(),
            strings_view(out@) == pv.take(q as int).map_values(|p: (Seq<char>, Seq<char>)| p.0),
        decreases pairs@.len() - q,
    {
        let ghost before = out@;
        out.push(pairs[q].0.clone());
        assert(strings_view(out@) =~= strings_view(before).push(pv[q as int].0));
        q += 1;
        assert(pv.take(q as int).map_values(|p: (Seq<char>, Seq<char>)| p.0) =~= pv.take(q - 1).map_values(
            |p: (Seq<char>, Seq<char>)| p.0,
        ).push(pv[q - 1].0));
    }
    assert(pv.take(pv.len() as int) =~= pv);
    proof {
        let ov = strings_view(out@);
        let iv = keys_view(items@);
        assert(iv =~= names.map_values(|x: Seq<char>| (x, Seq::<char>::empty())));
        assert forall|j: int| 0 <= j < pv.len() implies (#[trigger] pv[j]).1 == Seq::<char>::empty() by {
            assert(pv.contains(pv[j]));
            assert(iv.contains(pv[j]));
            let k = choose|k: int| 0 <= k < iv.len() && iv[k] == pv[j];
        }
        assert forall|a: int, b: int| 0 <= a < b < ov.len() implies crate::text::text_lt(ov[a], ov[b]) by {
            assert(crate::sorting::pair_lt(pv[a], pv[b]));
            crate::text::lemma_text_lt_irreflexive(pv[a].1);
        }
        assert forall|x: Seq<char>| ov.contains(x) <==> names.contains(x) by {
            if ov.contains(x) {
                let j = choose|j: int| 0 <= j < ov.len() && ov[j] == x;
                assert(pv.contains(pv[j]));
                assert(iv.contains(pv[j]));
                let k = choose|k: int| 0 <= k < iv.len() && iv[k] == pv[j];
                assert(names[k] == x);
            }
            if names.contains(x) {
                let k = choose|k: int| 0 <= k < names.len() && names[k] == x;
                assert(iv[k] == (x, Seq::<char>::empty()));
                assert(iv.contains((x, Seq::<char>::empty())));
                assert(pv.contains((x, Seq::<char>::empty())));
                let j = choose|j: int| 0 <= j < pv.len() && pv[j] == (x, Seq::<char>::empty());
                assert(ov[j] == x);
            }
        }
    }
    Ok(out)
}

/// What the catalog says of an application a plan may select.
#[derive(Debug)]
pub struct CatalogEntry {
    pub namespace: String,
    pub blocker_count: u32,
    pub migration_candidate: bool,
}

/// Namespaces of the selected catalog entries with blockers, in catalog order.
pub open spec fn blocked_names(apps: Seq<CatalogEntry>, selected: Seq<Seq<char>>) -> Seq<Seq<char>>
    decreases apps.len(),
{
    if apps.len() == 0 {
        Seq::empty()
    } else {
        let p = blocked_names(apps.drop_last(), selected);
        let a = apps.last();
        if selected.contains(a.namespace@) && a.blocker_count > 0 {
            p.push(a.namespace@)
        } else {
            p
        }
    }
}

/// Namespaces of the selected catalog entries that are not migration candidates, in order.
pub open spec fn non_candidate_names(apps: Seq<CatalogEntry>, selected: Seq<Seq<char>>) -> Seq<Seq<char>>
    decreases apps.len(),
{
    if apps.len() == 0 {
        Seq::empty()
    } else {
        let p = non_candidate_names(apps.drop_last(), selected);
        let a = apps.last();
        if selected.contains(a.namespace@) && !a.migration_candidate {
            p.push(a.namespace@)
        } else {
            p
        }
    }
}

fn collect_names(apps: &Vec<CatalogEntry>, selected: &Vec<String>, blockers: bool) -> (r: Vec<String>)
    ensures
        strings_view(r@) == if blockers {
            blocked_names(apps@, strings_view(selected@))
        } else {
            non_candidate_names(apps@, strings_view(selected@))
        },
{
    let mut out: Vec<String> = Vec::new();
    let mut i: usize = 0;
    while i < apps.len()
        invariant
            i <= apps@.len(),
            strings_view(out@) == if blockers {
                blocked_names(apps@.take(i as int), strings_view(selected@))
            } else {
                non_candidate_names(apps@.take(i as int), strings_view(selected@))
            },
        decreases apps@.len() - i,
    {
        assert(apps@.take(i + 1).drop_last() =~= apps@.take(i as int));
        let a = &apps[i];
        let hit = crate::refs::vec_contains_str(selected, a.namespace.as_str()) && if blockers {
            a.blocker_count > 0
        } else {
            !a.migration_candidate
        };
        if hit {
            let ghost before = out@;
            out.push(a.namespace.clone());
            assert(strings_view(out@) =~= strings_view(before).push(a.namespace@));
        }
        i += 1;
    }
    assert(apps@.take(apps@.len() as int) =~= apps@);
    out
}

/// Check a selection against the catalog: selected namespaces with blockers are refused
/// first, then selected namespaces that are not sidecar migration candidates.
pub fn check_selection(selected: &Vec<String>, apps: &Vec<CatalogEntry>) -> (r: Result<(), ApiError>)
    ensures
        ({
            let b = blocked_names(apps@, strings_view(selected@));
            let n = non_candidate_names(apps@, strings_view(selected@));
            if b.len() > 0 {
                r matches Err(e) && e.status == 400 && e.message@ == "cannot migrate namespaces with blockers until resolved: "@
                    + join_seq(b, ", "@)
            } else if n.len() > 0 {
                r matches Err(e) && e.status == 400 && e.message@
                    == "namespaces are not sidecar migration candidates (already ambient or not enrolled): "@ + join_seq(n, ", "@)
            } else {
                r is Ok
            }
        }),
{
    let blocked = collect_names(apps, selected, true);
    if blocked.len() > 0 {
        let mut m = owned("cannot migrate namespaces with blockers until resolved: ");
        let j = join(&blocked, ", ");
        m.append(j.as_str());
        return Err(ApiError { status: 400, message: m });
    }
    let not_candidates = collect_names(apps, selected, false);
    if not_candidates.len() > 0 {
        let mut m = owned("namespaces are not sidecar migration candidates (already ambient or not enrolled): ");
        let j = join(&not_candidates, ", ");
        m.append(j.as_str());
        return Err(ApiError { status: 400, message: m });
    }
    Ok(())
}

/// The control plane a plan migrates to.
#[derive(Debug)]
pub struct MeshTarget {
    pub revision: Option<String>,
    pub discovery_label: Option<String>,
    pub control_plane_namespace: Option<String>,
}

/// Plan target of a mesh: its revision and control-plane namespace, and its discovery label
/// when it has one.
pub fn mesh_target_for(mesh: &MeshInstance) -> (r: MeshTarget)
    ensures
        r.revision == Some(mesh.revision),
        r.discovery_label == if mesh.discovery_label@.len() == 0 { None } else { Some(mesh.discovery_label) },
        r.control_plane_namespace == Some(mesh.control_plane_namespace),
{
    MeshTarget {
        revision: Some(mesh.revision.clone()),
        discovery_label: if mesh.discovery_label.unicode_len() == 0 {
            None
        } else {
            Some(mesh.discovery_label.clone())
        },
        control_plane_namespace: Some(mesh.control_plane_namespace.clone()),
    }
}

/// A label a rollout applies to a namespace.
#[derive(Debug)]
pub struct NamespaceLabelPreview {
    pub key: String,
    pub value: String,
}

/// Labels a rollout applies: the revision (its tag when there is one), the discovery label
/// when the enrollment has one, and the ambient dataplane label.
pub open spec fn label_preview(mesh: MeshInstance) -> Seq<(Seq<char>, Seq<char>)> {
    let e = mesh.enrollment;
    let rev = match e.revision_tag {
        Some(t) => t@,
        None => e.revision@,
    };
    let first = seq![("istio.io/rev"@, rev)];
    let middle = match (e.discovery_label_key, e.discovery_label_value) {
        (Some(k), Some(v)) => seq![(k@, v@)],
        _ => Seq::empty(),
    };
    first + middle + seq![("istio.io/dataplane-mode"@, "ambient"@)]
}

/// Labels a rollout applies to the namespaces it migrates to a mesh.
pub fn enrollment_label_preview(mesh: &MeshInstance) -> (r: Vec<NamespaceLabelPreview>)
    ensures
        r@.map_values(|p: NamespaceLabelPreview| (p.key@, p.value@)) == label_preview(*mesh),
{
    let mut out: Vec<NamespaceLabelPreview> = Vec::new();
    let value = match &mesh.enrollment.revision_tag {
        Some(t) => t.clone(),
        None => mesh.enrollment.revision.clone(),
    };
    out.push(NamespaceLabelPreview { key: owned("istio.io/rev"), value });
    match (&mesh.enrollment.discovery_label_key, &mesh.enrollment.discovery_label_value) {
        (Some(k), Some(v)) => {
            out.push(NamespaceLabelPreview { key: k.clone(), value: v.clone() });
        },
        _ => {},
    }
    out.push(NamespaceLabelPreview { key: owned("istio.io/dataplane-mode"), value: owned("ambient") });
    assert(out@.map_values(|p: NamespaceLabelPreview| (p.key@, p.value@)) =~= label_preview(*mesh));
    out
}

/// The first `n` characters of a text, or all of it when shorter.
pub open spec fn prefix_chars(s: Seq<char>, n: int) -> Seq<char> {
    if s.len() <= n {
        s
    } else {
        s.take(n)
    }
}

/// Slug of a selection: the first twelve characters of each of its first three names,
/// joined by `-`.
pub open spec fn selection_slug(selected: Seq<Seq<char>>) -> Seq<char> {
    join_seq(
        crate::deep_analysis::first_n(selected, 3).map_values(|s: Seq<char>| prefix_chars(s, 12)),
        "-"@,
    )
}

/// Default name of a plan: `migrate-`, the selection slug, `-` and a timestamp.
pub fn default_plan_name(selected: &Vec<String>, timestamp: &str) -> (r: String)
    ensures
        r@ == "migrate-"@ + selection_slug(strings_view(selected@)) + "-"@ + timestamp@,
{
    let ghost sv = strings_view(selected@);
    let mut parts: Vec<String> = Vec::new();
    let mut i: usize = 0;
    while i < selected.len() && i < 3
        invariant
            sv == strings_view(selected@),
            i <= selected@.len(),
            i <= 3,
            strings_view(parts@) == sv.take(i as int).map_values(|s: Seq<char>| prefix_chars(s, 12)),
        decreases selected@.len() - i,
    {
        let s = selected[i].as_str();
        let n = s.unicode_len();
        let part = if n <= 12 {
            owned(s)
        } else {
            crate::text::substring(s, 0, 12)
        };
        let ghost before = parts@;
        parts.push(part);
        assert(strings_view(parts@) =~= strings_view(before).push(prefix_chars(sv[i as int], 12)));
        i += 1;
        assert(sv.take(i as int).map_values(|s: Seq<char>| prefix_chars(s, 12)) =~= sv.take(i - 1).map_values(
            |s: Seq<char>| prefix_chars(s, 12),
        ).push(prefix_chars(sv[i - 1], 12)));
    }
    assert(crate::deep_analysis::first_n(sv, 3) =~= sv.take(i as int));
    let slug = join(&parts, "-");
    let mut r = owned("migrate-");
    r.append(slug.as_str());
    r.append("-");
    r.append(timestamp);
    r
}

/// Name of a new plan: the requested one when it is not empty, else the default name with
/// the current time.
pub fn plan_name(requested: Option<String>, selected: &Vec<String>) -> (r: String)
    ensures
        match requested {
            Some(n) if n@.len() > 0 => r@ == n@,
            _ => exists|t: Seq<char>|
                r@ == "migrate-"@ + selection_slug(strings_view(selected@)) + "-"@ + t && crate::clock::compact_instant_text(t),
        },
{
    match requested {
        Some(n) => {
            if n.unicode_len() > 0 {
                return n;
            }
        },
        None => {},
    }
    let ts = crate::clock::utc_compact_timestamp();
    default_plan_name(selected, ts.as_str())
}

/// Next step of a plan: wait for the plan, the state of its rollout, or execute it.
pub open spec fn next_action(plan_phase: Seq<char>, rollout: Option<(Seq<char>, bool)>) -> Seq<char> {
    if plan_phase != "Ready"@ {
        "wait_plan"@
    } else {
        match rollout {
            Some((p, awaiting)) => if p == "Completed"@ {
                "completed"@
            } else if p == "Failed"@ {
                "failed"@
            } else if p == "Running"@ || p == "Pending"@ {
                "running"@
            } else if awaiting {
                "approve_rollout"@
            } else {
                "execute"@
            },
            None => "execute"@,
        }
    }
}

proof fn lemma_plan_texts_differ()
    ensures
        "Running"@ != "Completed"@ && "Running"@ != "Failed"@,
        "Pending"@ != "Completed"@ && "Pending"@ != "Failed"@,
        "running"@ != "execute"@ && "running"@ != "approve_rollout"@ && "running"@ != "wait_plan"@,
        "running"@ != "completed"@ && "running"@ != "failed"@,
        "execute"@ != "approve_rollout"@ && "execute"@ != "wait_plan"@ && "execute"@ != "completed"@ && "execute"@ != "failed"@,
        "approve_rollout"@ != "wait_plan"@ && "approve_rollout"@ != "completed"@ && "approve_rollout"@ != "failed"@,
{
    reveal_strlit("Running");
    reveal_strlit("Pending");
    reveal_strlit("Completed");
    reveal_strlit("Failed");
    reveal_strlit("running");
    reveal_strlit("execute");
    reveal_strlit("approve_rollout");
    reveal_strlit("wait_plan");
    reveal_strlit("completed");
    reveal_strlit("failed");
    assert("Running"@.len() == 7 && "Pending"@.len() == 7 && "Completed"@.len() == 9 && "Failed"@.len() == 6);
    assert("running"@.len() == 7 && "execute"@.len() == 7 && "approve_rollout"@.len() == 15);
    assert("wait_plan"@.len() == 9 && "completed"@.len() == 9 && "failed"@.len() == 6);
    assert("running"@[0] != "execute"@[0]);
    assert("wait_plan"@[0] != "completed"@[0]);
}

/// What a plan's next step is for: an unready plan waits; a ready plan whose rollout is
/// running or pending is reported running; execution is advised only for a ready plan with
/// no rollout, or with one that is neither finished, nor running or pending, nor awaiting
/// approval; approving the rollout is advised exactly when the ready plan's rollout awaits
/// approval and is neither finished nor running or pending.
pub proof fn law_plan_next_action(plan_phase: Seq<char>, rollout: Option<(Seq<char>, bool)>)
    ensures
        plan_phase != "Ready"@ ==> next_action(plan_phase, rollout) == "wait_plan"@,
        plan_phase == "Ready"@ && (rollout matches Some(r) && (r.0 == "Running"@ || r.0 == "Pending"@)) ==> next_action(
            plan_phase,
            rollout,
        ) == "running"@,
        next_action(plan_phase, rollout) == "execute"@ ==> plan_phase == "Ready"@ && match rollout {
            Some((p, awaiting)) => !awaiting && p != "Completed"@ && p != "Failed"@ && p != "Running"@ && p != "Pending"@,
            None => true,
        },
        next_action(plan_phase, rollout) == "approve_rollout"@ <==> plan_phase == "Ready"@ && match rollout {
            Some((p, awaiting)) => awaiting && p != "Completed"@ && p != "Failed"@ && p != "Running"@ && p != "Pending"@,
            None => false,
        },
{
    lemma_plan_texts_differ();
}

/// Next step of a plan from its phase and its rollout, if any.
pub fn plan_next_action(plan_phase: &str, rollout: Option<&RolloutListItem>) -> (r: &'static str)
    ensures
        r@ == next_action(plan_phase@, match rollout {
            Some(i) => Some((i.phase@, i.awaiting_approval)),
            None => None,
        }),
{
    if !str_eq(plan_phase, "Ready") {
        return "wait_plan";
    }
    match rollout {
        Some(item) => {
            let p = item.phase.as_str();
            if str_eq(p, "Completed") {
                "completed"
            } else if str_eq(p, "Failed") {
                "failed"
            } else if str_eq(p, "Running") || str_eq(p, "Pending") {
                "running"
            } else if item.awaiting_approval {
                "approve_rollout"
            } else {
                "execute"
            }
        },
        None => "execute",
    }
}

/// How to move a plan forward from each channel.
#[derive(Debug)]
pub struct PlanChannelHints {
    pub portal: String,
    pub cli: String,
    pub gitops_plan_patch: String,
    pub gitops_rollout_patch: String,
}

/// Commands that approve a plan and its rollout from the portal, the CLI and GitOps.
pub fn plan_channel_hints(namespace: &str, plan_name: &str) -> (r: PlanChannelHints)
    ensures
        r.portal@ == "Plans → Approve & run migration (one click)"@,
        r.cli@ == "ambientor plan execute -n "@ + namespace@ + " "@ + plan_name@,
        r.gitops_plan_patch@ == "kubectl patch migrationplan "@ + plan_name@ + " -n "@ + namespace@
            + " --type=merge -p '{\"status\":{\"approved\":true}}'"@,
        r.gitops_rollout_patch@ == "kubectl patch rollout "@ + (plan_name@ + "-rollout"@) + " -n "@ + namespace@
            + " --type=merge -p '{\"status\":{\"approvedStage\":0,\"phase\":\"Pending\"}}'"@,
{
    let rollout_name = crate::rollouts::rollout_name_for_plan(plan_name);
    let mut plan_patch = owned("kubectl patch migrationplan ");
    plan_patch.append(plan_name);
    plan_patch.append(" -n ");
    plan_patch.append(namespace);
    plan_patch.append(" --type=merge -p '{\"status\":{\"approved\":true}}'");
    let mut rollout_patch = owned("kubectl patch rollout ");
    rollout_patch.append(rollout_name.as_str());
    rollout_patch.append(" -n ");
    rollout_patch.append(namespace);
    rollout_patch.append(" --type=merge -p '{\"status\":{\"approvedStage\":0,\"phase\":\"Pending\"}}'");
    let mut cli = owned("ambientor plan execute -n ");
    cli.append(namespace);
    cli.append(" ");
    cli.append(plan_name);
    PlanChannelHints {
        portal: owned("Plans → Approve & run migration (one click)"),
        cli,
        gitops_plan_patch: plan_patch,
        gitops_rollout_patch: rollout_patch,
    }
}

/// Whether a plan may be approved or executed: it must have a status in phase `Ready`.
/// `wait` selects the wording of execution (`wait until Ready`) over that of approval
/// (`must be Ready`).
pub fn require_plan_ready(phase: Option<&str>, wait: bool) -> (r: Result<(), ApiError>)
    ensures
        match phase {
            None => r matches Err(e) && e.status == 409 && e.message@ == "plan has no status yet"@,
            Some(p) => if p@ == "Ready"@ {
                r is Ok
            } else {
                r matches Err(e) && e.status == 409 && e.message@ == "plan phase is "@ + p@ + if wait {
                    "; wait until Ready"@
                } else {
                    "; must be Ready"@
                }
            },
        },
{
    match phase {
        None => Err(ApiError { status: 409, message: owned("plan has no status yet") }),
        Some(p) => {
            if str_eq(p, "Ready") {
                Ok(())
            } else {
                let mut m = owned("plan phase is ");
                m.append(p);
                if wait {
                    m.append("; wait until Ready");
                } else {
                    m.append("; must be Ready");
                }
                Err(ApiError { status: 409, message: m })
            }
        },
    }
}


/// Status of a migration plan as the operator reports it.
#[derive(Debug)]
pub struct PlanStatusInfo {
    pub phase: String,
    pub approved: bool,
    pub wave_count: i32,
    pub cluster_ref: Option<String>,
}

/// A migration plan resource: its name and namespace, its spec, and its status when the
/// operator has written one. `W` is a migration wave, which the list carries as it is.
#[derive(Debug)]
pub struct PlanInfo<W> {
    pub name: Option<String>,
    pub namespace: Option<String>,
    pub assessment_ref: Option<String>,
    pub selected_namespaces: Vec<String>,
    pub cluster_ref: Option<String>,
    pub display_name: Option<String>,
    pub mesh_target: Option<MeshTarget>,
    pub waves: Vec<W>,
    pub status: Option<PlanStatusInfo>,
}

/// A migration plan as the plan list shows it.
#[derive(Debug)]
pub struct PlanListItem<W> {
    pub name: String,
    pub namespace: String,
    pub phase: String,
    pub approved: bool,
    pub wave_count: i32,
    pub assessment_ref: Option<String>,
    pub selected_namespaces: Vec<String>,
    pub cluster_ref: Option<String>,
    pub display_name: Option<String>,
    pub mesh_target: Option<MeshTarget>,
    pub waves: Vec<W>,
}

/// List entry of a plan with a name and a status: its namespace defaults to `default`, its
/// cluster is the one its spec names, else the one its status names.
pub fn plan_to_list_item<W>(plan: PlanInfo<W>) -> (r: Option<PlanListItem<W>>)
    ensures
        r is Some <==> (plan.name is Some && plan.status is Some),
        r matches Some(item) ==> {
            &&& Some(item.name) == plan.name
            &&& item.namespace@ == match plan.namespace {
                Some(n) => n@,
                None => "default"@,
            }
            &&& item.phase == plan.status->0.phase
            &&& item.approved == plan.status->0.approved
            &&& item.wave_count == plan.status->0.wave_count
            &&& item.assessment_ref == plan.assessment_ref
            &&& item.selected_namespaces == plan.selected_namespaces
            &&& item.cluster_ref == match plan.cluster_ref {
                Some(c) => Some(c),
                None => plan.status->0.cluster_ref,
            }
            &&& item.display_name == plan.display_name
            &&& item.mesh_target == plan.mesh_target
            &&& item.waves == plan.waves
        },
{
    let name = match plan.name {
        Some(n) => n,
        None => return None,
    };
    let status = match plan.status {
        Some(st) => st,
        None => return None,
    };
    let namespace = match plan.namespace {
        Some(n) => n,
        None => owned("default"),
    };
    let cluster_ref = match plan.cluster_ref {
        Some(c) => Some(c),
        None => status.cluster_ref,
    };
    Some(PlanListItem {
        name,
        namespace,
        phase: status.phase,
        approved: status.approved,
        wave_count: status.wave_count,
        assessment_ref: plan.assessment_ref,
        selected_namespaces: plan.selected_namespaces,
        cluster_ref,
        display_name: plan.display_name,
        mesh_target: plan.mesh_target,
        waves: plan.waves,
    })
}

/// Sort keys of plan list entries: namespace, then name.
pub open spec fn plan_keys<W>(items: Seq<PlanListItem<W>>) -> Seq<(Seq<char>, Seq<char>)> {
    items.map_values(|p: PlanListItem<W>| (p.namespace@, p.name@))
}

/// Plan list entries in ascending order of namespace, then name, equal keys in their given
/// order.
pub fn sort_plan_items<W>(items: Vec<PlanListItem<W>>) -> (r: Vec<PlanListItem<W>>)
    ensures
        exists|ord: Seq<usize>|
            #![trigger stable_sorted(plan_keys(items@), ord)]
            stable_sorted(plan_keys(items@), ord) && r@.len() == items@.len() && forall|t: int|
                0 <= t < r@.len() ==> #[trigger] r@[t] == items@[ord[t] as int],
{
    let mut keys: Vec<(String, String)> = Vec::new();
    let mut j: usize = 0;
    while j < items.len()
        invariant
            j <= items@.len(),
            keys@.len() == j,
            forall|q: int| 0 <= q < j ==> (#[trigger] keys@[q]).0@ == items@[q].namespace@ && keys@[q].1@ == items@[q].name@,
        decreases items@.len() - j,
    {
        keys.push((items[j].namespace.clone(), items[j].name.clone()));
        j += 1;
    }
    assert(keys_view(keys@) =~= plan_keys(items@));
    let ord = stable_order(&keys);
    let ghost iv = items@;
    let r = apply_order(items, &ord);
    assert(stable_sorted(plan_keys(iv), ord@));
    r
}


/// Blocked names depend on the selection only through which names it holds.
proof fn lemma_blocked_names_by_members(apps: Seq<CatalogEntry>, s1: Seq<Seq<char>>, s2: Seq<Seq<char>>)
    requires
        forall|x: Seq<char>| s1.contains(x) <==> s2.contains(x),
    ensures
        blocked_names(apps, s1) == blocked_names(apps, s2),
        non_candidate_names(apps, s1) == non_candidate_names(apps, s2),
    decreases apps.len(),
{
    if apps.len() > 0 {
        lemma_blocked_names_by_members(apps.drop_last(), s1, s2);
        assert(s1.contains(apps.last().namespace@) == s2.contains(apps.last().namespace@));
    }
}

/// The selection of a plan request, checked: trimmed, without blanks, each name once and in
/// ascending order, refused when nothing is left; then, when the catalog is known, refused
/// when it holds selected namespaces with blockers, else selected namespaces that are not
/// sidecar migration candidates.
pub fn validated_selection(selected: &Vec<String>, catalog: Option<&Vec<CatalogEntry>>) -> (r: Result<Vec<String>, ApiError>)
    ensures
        ({
            let t = trimmed_names(strings_view(selected@));
            if t.len() == 0 {
                r matches Err(e) && e.status == 400 && e.message@ == empty_selection_message()
            } else {
                match catalog {
                    None => r matches Ok(v) && crate::attribution::sorted_set_of(strings_view(v@), t),
                    Some(apps) => {
                        let b = blocked_names(apps@, t);
                        let n = non_candidate_names(apps@, t);
                        if b.len() > 0 {
                            r matches Err(e) && e.status == 400 && e.message@ == "cannot migrate namespaces with blockers until resolved: "@
                                + join_seq(b, ", "@)
                        } else if n.len() > 0 {
                            r matches Err(e) && e.status == 400 && e.message@
                                == "namespaces are not sidecar migration candidates (already ambient or not enrolled): "@ + join_seq(n, ", "@)
                        } else {
                            r matches Ok(v) && crate::attribution::sorted_set_of(strings_view(v@), t)
                        }
                    },
                }
            }
        }),
{
    let names = match normalize_selection(selected) {
        Ok(v) => v,
        Err(e) => return Err(e),
    };
    match catalog {
        None => Ok(names),
        Some(apps) => {
            proof {
                lemma_blocked_names_by_members(apps@, strings_view(names@), trimmed_names(strings_view(selected@)));
            }
            match check_selection(&names, apps) {
                Ok(()) => Ok(names),
                Err(e) => Err(e),
            }
        },
    }
}

/// A selection that passes the catalog check holds no namespace with blockers and no
/// namespace that is not a sidecar migration candidate.
pub proof fn law_accepted_selection_is_migratable(apps: Seq<CatalogEntry>, selected: Seq<Seq<char>>, k: int)
    requires
        blocked_names(apps, selected).len() == 0,
        non_candidate_names(apps, selected).len() == 0,
        0 <= k < apps.len(),
        selected.contains(apps[k].namespace@),
    ensures
        apps[k].blocker_count == 0,
        apps[k].migration_candidate,
    decreases apps.len(),
{
    if k < apps.len() - 1 {
        law_accepted_selection_is_migratable(apps.drop_last(), selected, k);
    }
}

/// Request to create a migration plan.
#[derive(Debug)]
pub struct CreateMigrationPlanRequest {
    /// Resource name; generated when missing or empty.
    pub name: Option<String>,
    /// Namespace of the plan resource; the install namespace when missing or empty.
    pub namespace: Option<String>,
    pub cluster_ref: Option<String>,
    pub display_name: Option<String>,
    pub assessment_ref: Option<String>,
    pub mesh_target: Option<MeshTarget>,
    pub selected_namespaces: Vec<String>,
}

/// Answer to a created migration plan.
#[derive(Debug)]
pub struct CreateMigrationPlanResponse {
    pub name: String,
    pub namespace: String,
    pub phase: String,
    pub selected_count: usize,
    pub wave_count: usize,
    pub mesh_target: Option<MeshTarget>,
    /// Labels applied during rollout (enrollment and ambient dataplane).
    pub namespace_labels_preview: Vec<NamespaceLabelPreview>,
}

/// A requested text when it is not empty, else the fallback.
pub fn requested_or(requested: Option<String>, fallback: String) -> (r: String)
    ensures
        r@ == match requested {
            Some(t) if t@.len() > 0 => t@,
            _ => fallback@,
        },
{
    match requested {
        Some(t) => if t.unicode_len() > 0 {
            t
        } else {
            fallback
        },
        None => fallback,
    }
}

/// Answer to a plan created for a selection on a mesh: pending, with the selection's size,
/// the plan's wave count, the mesh as target and the labels a rollout will apply.
pub fn created_plan_response(name: String, namespace: String, selected: &Vec<String>, wave_count: usize, mesh: &MeshInstance) -> (r: CreateMigrationPlanResponse)
    ensures
        r.name == name,
        r.namespace == namespace,
        r.phase@ == "Pending"@,
        r.selected_count == selected@.len(),
        r.wave_count == wave_count,
        r.mesh_target matches Some(t) && t.revision == Some(mesh.revision) && t.control_plane_namespace == Some(
            mesh.control_plane_namespace,
        ) && t.discovery_label == (if mesh.discovery_label@.len() == 0 {
            None
        } else {
            Some(mesh.discovery_label)
        }),
        r.namespace_labels_preview@.map_values(|p: NamespaceLabelPreview| (p.key@, p.value@)) == label_preview(*mesh),
{
    CreateMigrationPlanResponse {
        name,
        namespace,
        phase: owned("Pending"),
        selected_count: selected.len(),
        wave_count,
        mesh_target: Some(mesh_target_for(mesh)),
        namespace_labels_preview: enrollment_label_preview(mesh),
    }
}


/// What the one-click plan execution has just learned.
#[derive(Debug)]
pub enum ExecuteEvent {
    /// The plan was read: the phase and approval of its status, when it has one.
    PlanRead { status: Option<(String, bool)> },
    /// The plan's approval was recorded.
    PlanApproved,
    /// The plan's rollout was read after making sure it exists: the phase and current
    /// stage of its status, when it has one.
    RolloutRead { status: Option<(String, i32)> },
    /// The awaited stage was approved and the rollout read again: its phase, when it has a
    /// status.
    StageApproved { phase: Option<String> },
}

/// What the one-click plan execution does next.
#[derive(Debug)]
pub enum ExecuteAction {
    /// Answer the error.
    Fail(ApiError),
    /// Record the plan's approval (and its audit event).
    ApprovePlan,
    /// Create the plan's rollout if it does not exist, then read it.
    EnsureRollout,
    /// Approve the given stage of the rollout, then read it again.
    ApproveStage(i32),
    /// Answer with the rollout in the given phase.
    Respond(String),
}

/// Next step of a one-click plan execution: the plan must be `Ready`; an unapproved plan is
/// approved first; the rollout must have a status; a rollout awaiting approval gets its
/// current stage approved; the answer carries the rollout's phase (`Running` when the
/// rollout read after the approval has no status).
pub fn next_execute_action(event: ExecuteEvent) -> (r: ExecuteAction)
    ensures
        match event {
            ExecuteEvent::PlanRead { status: None } => r matches ExecuteAction::Fail(e) && e.status == 409 && e.message@
                == "plan has no status yet"@,
            ExecuteEvent::PlanRead { status: Some((phase, approved)) } => if phase@ != "Ready"@ {
                r matches ExecuteAction::Fail(e) && e.status == 409 && e.message@ == "plan phase is "@ + phase@
                    + "; wait until Ready"@
            } else if approved {
                r is EnsureRollout
            } else {
                r is ApprovePlan
            },
            ExecuteEvent::PlanApproved => r is EnsureRollout,
            ExecuteEvent::RolloutRead { status: None } => r matches ExecuteAction::Fail(e) && e.status == 409 && e.message@
                == "rollout has no status yet"@,
            ExecuteEvent::RolloutRead { status: Some((phase, stage)) } => if phase@ == "AwaitingApproval"@ {
                r == ExecuteAction::ApproveStage(stage)
            } else {
                r matches ExecuteAction::Respond(p) && p == phase
            },
            ExecuteEvent::StageApproved { phase } => r matches ExecuteAction::Respond(p) && p@ == match phase {
                Some(q) => q@,
                None => "Running"@,
            },
        },
{
    match event {
        ExecuteEvent::PlanRead { status } => {
            let (phase, approved) = match status {
                Some(st) => st,
                None => {
                    return ExecuteAction::Fail(ApiError { status: 409, message: owned("plan has no status yet") });
                },
            };
            match require_plan_ready(Some(phase.as_str()), true) {
                Err(e) => ExecuteAction::Fail(e),
                Ok(()) => if approved {
                    ExecuteAction::EnsureRollout
                } else {
                    ExecuteAction::ApprovePlan
                },
            }
        },
        ExecuteEvent::PlanApproved => ExecuteAction::EnsureRollout,
        ExecuteEvent::RolloutRead { status } => match status {
            None => ExecuteAction::Fail(ApiError { status: 409, message: owned("rollout has no status yet") }),
            Some((phase, stage)) => if str_eq(phase.as_str(), "AwaitingApproval") {
                ExecuteAction::ApproveStage(stage)
            } else {
                ExecuteAction::Respond(phase)
            },
        },
        ExecuteEvent::StageApproved { phase } => match phase {
            Some(p) => ExecuteAction::Respond(p),
            None => ExecuteAction::Respond(owned("Running")),
        },
    }
}

/// Answer to an executed plan: approved, with its rollout (in the plan's namespace) in the
/// given phase and the plan's sync status.
pub fn execute_plan_response(
    namespace: String,
    plan_name: String,
    rollout_name: String,
    rollout_phase: String,
    sync: crate::requests::PlanSyncStatus,
) -> (r: crate::requests::ExecutePlanResponse)
    ensures
        r.plan_namespace == namespace,
        r.rollout_namespace == namespace,
        r.plan_name == plan_name,
        r.plan_approved,
        r.rollout_name == rollout_name,
        r.rollout_phase == rollout_phase,
        r.message@ == "Plan approved and migration pipeline started (one approval; remaining stages run automatically)"@,
        r.sync == sync,
{
    crate::requests::ExecutePlanResponse {
        plan_namespace: namespace.clone(),
        plan_name,
        plan_approved: true,
        rollout_namespace: namespace,
        rollout_name,
        rollout_phase,
        message: owned("Plan approved and migration pipeline started (one approval; remaining stages run automatically)"),
        sync,
    }
}

} // verus!
