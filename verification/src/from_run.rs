//! Dashboard built from a stored assessment run: applications grouped by control plane.

use vstd::prelude::*;

use crate::catalog::{ApplicationAssessmentRecord, ClusterAssessmentRun, RiskLevel};
use crate::cluster_view::{checked_migration_savings, count_statuses, rows_view};
use crate::compute::{aggregate_fleet_summary, counts_of, mesh_counts, migrated_workloads, saturating_times, summary_of};
use crate::dashboard::{
    ApplicationMigrationStatus, ApplicationRow, ApplicationRowView, ClusterDashboard, DashboardResponse,
    MeshInstanceDashboard, MigrationSavingsSummary, StatusCounts,
};
use crate::dataplane::{derive_dataplane_mode_from_stored, mode_text, spec_dataplane_mode_from_stored, DataplaneMode};
use crate::sorting::{
    keys_view, lemma_pair_lt_asymmetric, lemma_pair_lt_irreflexive, lemma_pair_lt_total, lemma_pair_lt_transitive,
    pair_lt, stable_order, stable_sorted,
};
use crate::text::{has_infix, lower, owned, str_eq};

verus! {

/// Dataplane mode of a stored record: its stored mode when `ambient` or `sidecar`, else the
/// mode its stored labels give.
pub open spec fn resolved_mode(app: ApplicationAssessmentRecord) -> DataplaneMode {
    if app.dataplane_mode@ == "ambient"@ {
        DataplaneMode::Ambient
    } else if app.dataplane_mode@ == "sidecar"@ {
        DataplaneMode::Sidecar
    } else {
        spec_dataplane_mode_from_stored(app.namespace_labels@)
    }
}

/// Dataplane mode of a stored record.
pub fn resolve_dataplane_mode(app: &ApplicationAssessmentRecord) -> (r: DataplaneMode)
    ensures
        r == resolved_mode(*app),
{
    if app.dataplane_mode.unicode_len() > 0 {
        if str_eq(app.dataplane_mode.as_str(), "ambient") {
            return DataplaneMode::Ambient;
        }
        if str_eq(app.dataplane_mode.as_str(), "sidecar") {
            return DataplaneMode::Sidecar;
        }
    }
    proof {
        reveal_strlit("ambient");
        reveal_strlit("sidecar");
    }
    let rev = match &app.mesh_revision {
        Some(r) => Some(r.as_str()),
        None => None,
    };
    let disc = match &app.discovery_label {
        Some(d) => Some(d.as_str()),
        None => None,
    };
    derive_dataplane_mode_from_stored(&app.namespace_labels, rev, disc)
}

/// Migration status of a stored record: migrated on ambient; else by risk, blockers,
/// warnings, findings and workloads.
pub open spec fn spec_status_from_app(app: ApplicationAssessmentRecord) -> ApplicationMigrationStatus {
    if resolved_mode(app) == DataplaneMode::Ambient {
        ApplicationMigrationStatus::Migrated
    } else {
        match app.risk_level {
            RiskLevel::Critical => if app.blocker_count > 0 {
                ApplicationMigrationStatus::Blocker
            } else {
                ApplicationMigrationStatus::Failed
            },
            RiskLevel::High | RiskLevel::Medium => if app.blocker_count > 0 {
                ApplicationMigrationStatus::Blocker
            } else if app.warning_count > 0 || app.findings@.len() > 0 {
                ApplicationMigrationStatus::Scanned
            } else {
                ApplicationMigrationStatus::NotScanned
            },
            RiskLevel::Low => if app.findings@.len() == 0 && app.workload_count == 0 {
                ApplicationMigrationStatus::NotScanned
            } else {
                ApplicationMigrationStatus::Scanned
            },
        }
    }
}

/// Migration status of a stored record.
pub fn migration_status_from_app(app: &ApplicationAssessmentRecord) -> (r: ApplicationMigrationStatus)
    ensures
        r == spec_status_from_app(*app),
{
    if resolve_dataplane_mode(app) == DataplaneMode::Ambient {
        return ApplicationMigrationStatus::Migrated;
    }
    match app.risk_level {
        RiskLevel::Critical => {
            if app.blocker_count > 0 {
                ApplicationMigrationStatus::Blocker
            } else {
                ApplicationMigrationStatus::Failed
            }
        },
        RiskLevel::High | RiskLevel::Medium => {
            if app.blocker_count > 0 {
                ApplicationMigrationStatus::Blocker
            } else if app.warning_count > 0 || app.findings.len() > 0 {
                ApplicationMigrationStatus::Scanned
            } else {
                ApplicationMigrationStatus::NotScanned
            }
        },
        RiskLevel::Low => {
            if app.findings.len() == 0 && app.workload_count == 0 {
                ApplicationMigrationStatus::NotScanned
            } else {
                ApplicationMigrationStatus::Scanned
            }
        },
    }
}

/// An optional stored text, `unknown` when absent.
pub open spec fn or_unknown(o: Option<String>) -> Seq<char> {
    match o {
        Some(s) => s@,
        None => "unknown"@,
    }
}

/// Control plane of a stored record: revision, discovery label, control-plane namespace.
pub open spec fn app_mesh_key(app: ApplicationAssessmentRecord) -> (Seq<char>, Seq<char>, Seq<char>) {
    (or_unknown(app.mesh_revision), or_unknown(app.discovery_label), or_unknown(app.control_plane_namespace))
}

/// Whether a control plane is ambient: its discovery label or revision mentions `ambient`,
/// in any case.
pub open spec fn key_ambient(k: (Seq<char>, Seq<char>, Seq<char>)) -> bool {
    has_infix(lower(k.1), "ambient"@) || has_infix(lower(k.0), "ambient"@)
}

/// Order of control planes on the dashboard: ambient first, then discovery label, revision
/// and control-plane namespace.
pub open spec fn group_lt(a: (Seq<char>, Seq<char>, Seq<char>), b: (Seq<char>, Seq<char>, Seq<char>)) -> bool {
    let ra: Seq<char> = if key_ambient(a) { "0"@ } else { "1"@ };
    let rb: Seq<char> = if key_ambient(b) { "0"@ } else { "1"@ };
    pair_lt((ra, a.1), (rb, b.1)) || ((ra, a.1) == (rb, b.1) && pair_lt((a.0, a.2), (b.0, b.2)))
}

pub proof fn lemma_group_lt_order(
    a: (Seq<char>, Seq<char>, Seq<char>),
    b: (Seq<char>, Seq<char>, Seq<char>),
    c: (Seq<char>, Seq<char>, Seq<char>),
)
    ensures
        !group_lt(a, a),
        group_lt(a, b) && group_lt(b, c) ==> group_lt(a, c),
        group_lt(a, b) || group_lt(b, a) || a == b,
        group_lt(a, b) ==> !group_lt(b, a),
{
    let ra: Seq<char> = if key_ambient(a) { "0"@ } else { "1"@ };
    let rb: Seq<char> = if key_ambient(b) { "0"@ } else { "1"@ };
    let rc: Seq<char> = if key_ambient(c) { "0"@ } else { "1"@ };
    lemma_pair_lt_irreflexive((ra, a.1));
    lemma_pair_lt_irreflexive((a.0, a.2));
    if group_lt(a, b) && group_lt(b, c) {
        if pair_lt((ra, a.1), (rb, b.1)) && pair_lt((rb, b.1), (rc, c.1)) {
            lemma_pair_lt_transitive((ra, a.1), (rb, b.1), (rc, c.1));
        }
        if pair_lt((a.0, a.2), (b.0, b.2)) && pair_lt((b.0, b.2), (c.0, c.2)) {
            lemma_pair_lt_transitive((a.0, a.2), (b.0, b.2), (c.0, c.2));
        }
    }
    lemma_pair_lt_total((ra, a.1), (rb, b.1));
    lemma_pair_lt_total((a.0, a.2), (b.0, b.2));
    if group_lt(a, b) {
        if pair_lt((ra, a.1), (rb, b.1)) {
            lemma_pair_lt_asymmetric((ra, a.1), (rb, b.1));
        } else {
            lemma_pair_lt_asymmetric((a.0, a.2), (b.0, b.2));
            lemma_pair_lt_irreflexive((rb, b.1));
        }
    }
}

/// Dashboard row of a stored record on its control plane.
pub open spec fn app_row(app: ApplicationAssessmentRecord) -> ApplicationRowView {
    let k = app_mesh_key(app);
    let mode = resolved_mode(app);
    ApplicationRowView {
        application_name: app.application_name@,
        namespace: app.namespace@,
        status: spec_status_from_app(app),
        mesh_revision: k.0,
        discovery_label: k.1,
        dataplane_mode: mode_text(mode),
        ambient_dataplane: mode == DataplaneMode::Ambient,
        blocker_count: app.blocker_count as usize,
        workload_count: app.workload_count,
        rollout_phase: None,
        assessment_ref: Some("assessment/"@ + app.namespace@),
    }
}

/// Rows of the stored records on a control plane, in record order.
pub open spec fn group_rows(apps: Seq<ApplicationAssessmentRecord>, k: (Seq<char>, Seq<char>, Seq<char>)) -> Seq<ApplicationRowView>
    decreases apps.len(),
{
    if apps.len() == 0 {
        Seq::empty()
    } else {
        let p = group_rows(apps.drop_last(), k);
        if app_mesh_key(apps.last()) == k {
            p.push(app_row(apps.last()))
        } else {
            p
        }
    }
}

/// Sort key of a row by namespace alone.
pub open spec fn namespace_keys(rows: Seq<ApplicationRowView>) -> Seq<(Seq<char>, Seq<char>)> {
    rows.map_values(|r: ApplicationRowView| (r.namespace, Seq::<char>::empty()))
}

/// `out` is `rows` in stable order of namespace.
pub open spec fn sorted_by_namespace(out: Seq<ApplicationRowView>, rows: Seq<ApplicationRowView>) -> bool {
    exists|ord: Seq<usize>|
        #![trigger stable_sorted(namespace_keys(rows), ord)]
        stable_sorted(namespace_keys(rows), ord) && out.len() == rows.len() && forall|i: int|
            0 <= i < out.len() ==> #[trigger] out[i] == rows[ord[i] as int]
}

/// Control plane of a mesh on the dashboard.
pub open spec fn mesh_key_of(m: MeshInstanceDashboard) -> (Seq<char>, Seq<char>, Seq<char>) {
    (m.revision@, m.discovery_label@, m.control_plane_namespace@)
}

/// The control planes of the stored records.
pub open spec fn has_app_key(apps: Seq<ApplicationAssessmentRecord>, k: (Seq<char>, Seq<char>, Seq<char>)) -> bool {
    exists|i: int| 0 <= i < apps.len() && app_mesh_key(apps[i]) == k
}

/// The dashboard meshes of a run: one per control plane of its records, in dashboard order,
/// each with its records' rows sorted by namespace and counted.
pub open spec fn mesh_groups(meshes: Seq<MeshInstanceDashboard>, apps: Seq<ApplicationAssessmentRecord>) -> bool {
    &&& forall|i: int, j: int| 0 <= i < j < meshes.len() ==> group_lt(mesh_key_of(meshes[i]), mesh_key_of(meshes[j]))
    &&& forall|k: (Seq<char>, Seq<char>, Seq<char>)|
        has_app_key(apps, k) <==> exists|i: int| 0 <= i < meshes.len() && #[trigger] mesh_key_of(meshes[i]) == k
    &&& forall|i: int|
        0 <= i < meshes.len() ==> {
            let m = #[trigger] meshes[i];
            let k = mesh_key_of(m);
            &&& m.version is None
            &&& m.ambient == key_ambient(k)
            &&& sorted_by_namespace(rows_view(m.applications@), group_rows(apps, k))
            &&& counts_of(m.counts, m.applications@)
        }
}

fn text_or_unknown(o: &Option<String>) -> (r: String)
    ensures
        r@ == or_unknown(*o),
{
    match o {
        Some(s) => s.clone(),
        None => owned("unknown"),
    }
}

fn key_less(a: &(String, String, String), b: &(String, String, String)) -> (r: bool)
    ensures
        r == group_lt((a.0@, a.1@, a.2@), (b.0@, b.1@, b.2@)),
{
    let ra = if crate::text::contains_ignore_ascii_case(a.1.as_str(), "ambient") || crate::text::contains_ignore_ascii_case(
        a.0.as_str(),
        "ambient",
    ) {
        owned("0")
    } else {
        owned("1")
    };
    let rb = if crate::text::contains_ignore_ascii_case(b.1.as_str(), "ambient") || crate::text::contains_ignore_ascii_case(
        b.0.as_str(),
        "ambient",
    ) {
        owned("0")
    } else {
        owned("1")
    };
    proof {
        reveal_strlit("ambient");
        assert(lower("ambient"@) =~= "ambient"@);
    }
    let first = crate::sorting::pair_less(&(ra.clone(), a.1.clone()), &(rb.clone(), b.1.clone()));
    let same = str_eq(ra.as_str(), rb.as_str()) && str_eq(a.1.as_str(), b.1.as_str());
    first || (same && crate::sorting::pair_less(&(a.0.clone(), a.2.clone()), &(b.0.clone(), b.2.clone())))
}

fn same_key(a: &(String, String, String), b: &(String, String, String)) -> (r: bool)
    ensures
        r == ((a.0@, a.1@, a.2@) == (b.0@, b.1@, b.2@)),
{
    str_eq(a.0.as_str(), b.0.as_str()) && str_eq(a.1.as_str(), b.1.as_str()) && str_eq(a.2.as_str(), b.2.as_str())
}

/// Texts of a list of keys.
pub open spec fn triples_view(ks: Seq<(String, String, String)>) -> Seq<(Seq<char>, Seq<char>, Seq<char>)> {
    ks.map_values(|k: (String, String, String)| (k.0@, k.1@, k.2@))
}

fn app_row_exec(app: &ApplicationAssessmentRecord, key: &(String, String, String)) -> (r: ApplicationRow)
    requires
        (key.0@, key.1@, key.2@) == app_mesh_key(*app),
    ensures
        r@ == app_row(*app),
{
    let status = migration_status_from_app(app);
    let dataplane = resolve_dataplane_mode(app);
    let mut aref = owned("assessment/");
    aref.append(app.namespace.as_str());
    ApplicationRow {
        application_name: app.application_name.clone(),
        namespace: app.namespace.clone(),
        status,
        mesh_revision: key.0.clone(),
        discovery_label: key.1.clone(),
        dataplane_mode: owned(dataplane.as_str()),
        ambient_dataplane: dataplane.is_ambient(),
        blocker_count: app.blocker_count as usize,
        workload_count: app.workload_count,
        rollout_phase: None,
        assessment_ref: Some(aref),
    }
}

fn sort_rows_by_namespace(rows: &Vec<ApplicationRow>) -> (r: Vec<ApplicationRow>)
    ensures
        sorted_by_namespace(rows_view(r@), rows_view(rows@)),
{
    let mut keys: Vec<(String, String)> = Vec::new();
    let mut j: usize = 0;
    while j < rows.len()
        invariant
            j <= rows@.len(),
            keys@.len() == j,
            forall|q: int| 0 <= q < j ==> (#[trigger] keys@[q]).0@ == rows@[q].namespace@ && keys@[q].1@ == Seq::<char>::empty(),
        decreases rows@.len() - j,
    {
        keys.push((rows[j].namespace.clone(), String::new()));
        j += 1;
    }
    assert(keys_view(keys@) =~= namespace_keys(rows_view(rows@)));
    let ord = stable_order(&keys);
    let mut out: Vec<ApplicationRow> = Vec::new();
    let mut q: usize = 0;
    while q < ord.len()
        invariant
            stable_sorted(keys_view(keys@), ord@),
            keys@.len() == rows@.len(),
            q <= ord@.len(),
            out@.len() == q,
            forall|t: int| 0 <= t < q ==> #[trigger] out@[t] == rows@[ord@[t] as int],
        decreases ord@.len() - q,
    {
        assert(ord@[q as int] < rows@.len());
        out.push(rows[ord[q]].duplicate());
        q += 1;
    }
    assert forall|t: int| 0 <= t < rows_view(out@).len() implies #[trigger] rows_view(out@)[t] == rows_view(rows@)[ord@[t] as int] by {
        assert(out@[t] == rows@[ord@[t] as int]);
    }
    assert(stable_sorted(namespace_keys(rows_view(rows@)), ord@));
    out
}

/// Dashboard meshes of the stored records of a run: one per control plane, in dashboard
/// order, each with its records' rows sorted by namespace and counted.
pub fn mesh_groups_from_applications(apps: &Vec<ApplicationAssessmentRecord>) -> (r: Vec<MeshInstanceDashboard>)
    ensures
        mesh_groups(r@, apps@),
        crate::compute::total_rows(r@) == apps@.len(),
{
    let mut keys: Vec<(String, String, String)> = Vec::new();
    let mut rows: Vec<Vec<ApplicationRow>> = Vec::new();
    let mut i: usize = 0;
    while i < apps.len()
        invariant
            i <= apps@.len(),
            rows@.len() == keys@.len(),
            forall|a: int, b: int| 0 <= a < b < keys@.len() ==> group_lt(triples_view(keys@)[a], triples_view(keys@)[b]),
            forall|k: (Seq<char>, Seq<char>, Seq<char>)| has_app_key(apps@.take(i as int), k) <==> triples_view(keys@).contains(k),
            forall|g: int| 0 <= g < keys@.len() ==> rows_view((#[trigger] rows@[g])@) == group_rows(apps@.take(i as int), triples_view(keys@)[g]),
            rows_total(rows@) == i,
        decreases apps@.len() - i,
    {
        let app = &apps[i];
        let key = (text_or_unknown(&app.mesh_revision), text_or_unknown(&app.discovery_label), text_or_unknown(&app.control_plane_namespace));
        let ghost kx = (key.0@, key.1@, key.2@);
        let ghost pre = apps@.take(i as int);
        let ghost post = apps@.take(i + 1);
        assert(post.drop_last() =~= pre);
        assert(post.last() == *app);
        let ghost kv0 = triples_view(keys@);
        let row = app_row_exec(app, &key);
        // Position of the key, or where it goes.
        let mut p: usize = 0;
        while p < keys.len() && key_less(&keys[p], &key)
            invariant
                p <= keys@.len(),
                kx == (key.0@, key.1@, key.2@),
                kv0 == triples_view(keys@),
                forall|t: int| 0 <= t < p ==> group_lt(kv0[t], kx),
            decreases keys@.len() - p,
        {
            p += 1;
        }
        let found = p < keys.len() && same_key(&keys[p], &key);
        proof {
            lemma_group_lt_order(kx, kx, kx);
        }
        if found {
            let ghost rows0 = rows@;
            let mut g = rows.remove(p);
            let ghost gb = g@;
            let ghost removed = rows@;
            g.push(row);
            assert(rows_view(g@) =~= rows_view(gb).push(app_row(*app)));
            rows.insert(p, g);
            proof {
                assert(rows0 =~= removed.insert(p as int, rows0[p as int]));
                lemma_rows_total_insert(removed, p as int, rows0[p as int]);
                lemma_rows_total_insert(removed, p as int, rows@[p as int]);
                assert(rows@ =~= removed.insert(p as int, rows@[p as int]));
            }
            proof {
                assert forall|k: (Seq<char>, Seq<char>, Seq<char>)| has_app_key(post, k) <==> triples_view(keys@).contains(k) by {
                    if has_app_key(post, k) {
                        let w = choose|w: int| 0 <= w < post.len() && app_mesh_key(post[w]) == k;
                        if w < pre.len() {
                            assert(app_mesh_key(pre[w]) == k);
                        } else {
                            assert(triples_view(keys@)[p as int] == k);
                        }
                    }
                    if has_app_key(pre, k) {
                        let w = choose|w: int| 0 <= w < pre.len() && app_mesh_key(pre[w]) == k;
                        assert(app_mesh_key(post[w]) == k);
                    }
                }
                assert forall|gi: int| 0 <= gi < keys@.len() implies rows_view((#[trigger] rows@[gi])@) == group_rows(post, triples_view(keys@)[gi]) by {
                    if gi != p {
                        assert(rows@[gi] == old_rows_at(rows@, gi));
                    }
                }
            }
        } else {
            let ghost kb = keys@;
            let mut g: Vec<ApplicationRow> = Vec::new();
            g.push(row);
            proof {
                assert(group_rows(pre, kx) =~= Seq::<ApplicationRowView>::empty()) by {
                    assert(!has_app_key(pre, kx)) by {
                        if has_app_key(pre, kx) {
                            assert(kv0.contains(kx));
                            let t = choose|t: int| 0 <= t < kv0.len() && kv0[t] == kx;
                            if t < p {
                                assert(group_lt(kv0[t], kx));
                            } else if t > p {
                                assert(group_lt(kv0[p as int], kv0[t]));
                                lemma_group_lt_order(kv0[p as int], kx, kx);
                                if !group_lt(kx, kv0[p as int]) {
                                    lemma_group_lt_order(kx, kv0[p as int], kx);
                                }
                            }
                        }
                    }
                    lemma_group_rows_absent(pre, kx);
                }
                assert(rows_view(g@) =~= seq![app_row(*app)]);
            }
            keys.insert(p, key);
            let ghost rows0 = rows@;
            rows.insert(p, g);
            proof {
                lemma_rows_total_insert(rows0, p as int, rows@[p as int]);
                let kv1 = triples_view(keys@);
                assert(kv1 =~= kv0.insert(p as int, kx));
                assert forall|a: int, b: int| 0 <= a < b < kv1.len() implies group_lt(kv1[a], kv1[b]) by {
                    if b < p {
                    } else if a > p {
                        assert(kv1[a] == kv0[a - 1]);
                        assert(kv1[b] == kv0[b - 1]);
                    } else if a == p {
                        assert(kv1[b] == kv0[b - 1]);
                        // kx < kv0[p] <= kv0[b-1]
                        lemma_group_lt_order(kx, kv0[p as int], kv0[b - 1]);
                        lemma_group_lt_order(kv0[p as int], kx, kx);
                        if b - 1 > p {
                            assert(group_lt(kv0[p as int], kv0[b - 1]));
                        }
                    } else if b == p {
                        assert(kv1[a] == kv0[a]);
                    } else {
                        assert(kv1[a] == kv0[a]);
                        assert(kv1[b] == kv0[b - 1]);
                        lemma_group_lt_order(kv0[a], kx, kv0[b - 1]);
                        lemma_group_lt_order(kv0[p as int], kx, kx);
                        lemma_group_lt_order(kx, kv0[p as int], kv0[b - 1]);
                        if b - 1 > p {
                            assert(group_lt(kv0[p as int], kv0[b - 1]));
                        }
                    }
                }
                assert forall|k: (Seq<char>, Seq<char>, Seq<char>)| has_app_key(post, k) <==> kv1.contains(k) by {
                    if has_app_key(post, k) {
                        let w = choose|w: int| 0 <= w < post.len() && app_mesh_key(post[w]) == k;
                        if w < pre.len() {
                            assert(app_mesh_key(pre[w]) == k);
                            assert(kv0.contains(k));
                            let t = choose|t: int| 0 <= t < kv0.len() && kv0[t] == k;
                            if t < p {
                                assert(kv1[t] == k);
                            } else {
                                assert(kv1[t + 1] == k);
                            }
                        } else {
                            assert(kv1[p as int] == k);
                        }
                    }
                    if kv1.contains(k) {
                        let t = choose|t: int| 0 <= t < kv1.len() && kv1[t] == k;
                        if t == p {
                            assert(app_mesh_key(post[pre.len() as int]) == k);
                        } else {
                            let t0 = if t < p { t } else { t - 1 };
                            assert(kv0[t0] == k);
                            assert(kv0.contains(k));
                            assert(has_app_key(pre, k));
                            let w = choose|w: int| 0 <= w < pre.len() && app_mesh_key(pre[w]) == k;
                            assert(app_mesh_key(post[w]) == k);
                        }
                    }
                }
                assert forall|gi: int| 0 <= gi < keys@.len() implies rows_view((#[trigger] rows@[gi])@) == group_rows(post, kv1[gi]) by {
                    if gi < p {
                        assert(kv1[gi] == kv0[gi]);
                        assert(kv0[gi] != kx) by {
                            lemma_group_lt_order(kv0[gi], kx, kx);
                        }
                    } else if gi > p {
                        assert(kv1[gi] == kv0[gi - 1]);
                        assert(kv0[gi - 1] != kx) by {
                            if gi - 1 > p {
                                assert(group_lt(kv0[p as int], kv0[gi - 1]));
                            }
                            lemma_group_lt_order(kx, kv0[p as int], kv0[gi - 1]);
                            lemma_group_lt_order(kv0[p as int], kx, kx);
                            lemma_group_lt_order(kx, kx, kx);
                        }
                    }
                }
            }
        }
        i += 1;
    }
    assert(apps@.take(apps@.len() as int) =~= apps@);
    let mut out: Vec<MeshInstanceDashboard> = Vec::new();
    let mut g: usize = 0;
    while g < keys.len()
        invariant
            rows@.len() == keys@.len(),
            forall|a: int, b: int| 0 <= a < b < keys@.len() ==> group_lt(triples_view(keys@)[a], triples_view(keys@)[b]),
            forall|k: (Seq<char>, Seq<char>, Seq<char>)| has_app_key(apps@, k) <==> triples_view(keys@).contains(k),
            forall|gi: int| 0 <= gi < keys@.len() ==> rows_view((#[trigger] rows@[gi])@) == group_rows(apps@, triples_view(keys@)[gi]),
            rows_total(rows@) == apps@.len(),
            crate::compute::total_rows(out@) == rows_total(rows@.take(g as int)),
            g <= keys@.len(),
            out@.len() == g,
            forall|t: int| 0 <= t < g ==> #[trigger] mesh_key_of(out@[t]) == triples_view(keys@)[t],
            forall|t: int|
                0 <= t < g ==> {
                    let m = #[trigger] out@[t];
                    let k = mesh_key_of(m);
                    &&& m.version is None
                    &&& m.ambient == key_ambient(k)
                    &&& sorted_by_namespace(rows_view(m.applications@), rows_view(rows@[t]@))
                    &&& counts_of(m.counts, m.applications@)
                },
        decreases keys@.len() - g,
    {
        let applications = sort_rows_by_namespace(&rows[g]);
        let counts = count_statuses(&applications);
        let k = &keys[g];
        proof {
            reveal_strlit("ambient");
            assert(lower("ambient"@) =~= "ambient"@);
        }
        let ambient = crate::text::contains_ignore_ascii_case(k.1.as_str(), "ambient") || crate::text::contains_ignore_ascii_case(
            k.0.as_str(),
            "ambient",
        );
        let ghost before = out@;
        out.push(MeshInstanceDashboard {
            revision: k.0.clone(),
            discovery_label: k.1.clone(),
            control_plane_namespace: k.2.clone(),
            version: None,
            ambient,
            counts,
            applications,
        });
        proof {
            assert(out@.drop_last() =~= before);
            assert(rows@.take(g + 1).drop_last() =~= rows@.take(g as int));
        }
        g += 1;
    }
    proof {
        assert(rows@.take(rows@.len() as int) =~= rows@);
        assert forall|k: (Seq<char>, Seq<char>, Seq<char>)| has_app_key(apps@, k) <==> exists|t: int| 0 <= t < out@.len() && #[trigger] mesh_key_of(out@[t]) == k by {
            if has_app_key(apps@, k) {
                assert(triples_view(keys@).contains(k));
                let t = choose|t: int| 0 <= t < triples_view(keys@).len() && triples_view(keys@)[t] == k;
                assert(mesh_key_of(out@[t]) == k);
            }
            if exists|t: int| 0 <= t < out@.len() && #[trigger] mesh_key_of(out@[t]) == k {
                let t = choose|t: int| 0 <= t < out@.len() && #[trigger] mesh_key_of(out@[t]) == k;
                assert(triples_view(keys@)[t] == k);
                assert(triples_view(keys@).contains(k));
            }
        }
        assert forall|a: int, b: int| 0 <= a < b < out@.len() implies group_lt(mesh_key_of(out@[a]), mesh_key_of(out@[b])) by {
            assert(mesh_key_of(out@[a]) == triples_view(keys@)[a]);
            assert(mesh_key_of(out@[b]) == triples_view(keys@)[b]);
        }
        assert forall|t: int| 0 <= t < out@.len() implies sorted_by_namespace(rows_view((#[trigger] out@[t]).applications@), group_rows(apps@, mesh_key_of(out@[t]))) by {
            assert(rows_view(rows@[t]@) == group_rows(apps@, triples_view(keys@)[t]));
        }
    }
    out
}

spec fn old_rows_at(rows: Seq<Vec<ApplicationRow>>, g: int) -> Vec<ApplicationRow> {
    rows[g]
}

/// Number of rows over a list of row groups.
pub open spec fn rows_total(s: Seq<Vec<ApplicationRow>>) -> int
    decreases s.len(),
{
    if s.len() == 0 {
        0
    } else {
        rows_total(s.drop_last()) + s.last()@.len()
    }
}

pub proof fn lemma_rows_total_insert(s: Seq<Vec<ApplicationRow>>, p: int, v: Vec<ApplicationRow>)
    requires
        0 <= p <= s.len(),
    ensures
        rows_total(s.insert(p, v)) == rows_total(s) + v@.len(),
    decreases s.len(),
{
    if p == s.len() {
        assert(s.insert(p, v) =~= s.push(v));
        assert(s.push(v).drop_last() =~= s);
    } else {
        assert(s.insert(p, v).drop_last() =~= s.drop_last().insert(p, v));
        lemma_rows_total_insert(s.drop_last(), p, v);
    }
}

pub proof fn lemma_group_rows_absent(apps: Seq<ApplicationAssessmentRecord>, k: (Seq<char>, Seq<char>, Seq<char>))
    requires
        !has_app_key(apps, k),
    ensures
        group_rows(apps, k).len() == 0,
    decreases apps.len(),
{
    if apps.len() > 0 {
        assert(!has_app_key(apps.drop_last(), k)) by {
            if has_app_key(apps.drop_last(), k) {
                let w = choose|w: int| 0 <= w < apps.drop_last().len() && app_mesh_key(apps.drop_last()[w]) == k;
                assert(app_mesh_key(apps[w]) == k);
            }
        }
        lemma_group_rows_absent(apps.drop_last(), k);
        assert(app_mesh_key(apps[apps.len() - 1]) != k);
    }
}

/// Number of ambient meshes of a dashboard.
pub open spec fn ambient_meshes(meshes: Seq<MeshInstanceDashboard>) -> nat
    decreases meshes.len(),
{
    if meshes.len() == 0 {
        0
    } else {
        ambient_meshes(meshes.drop_last()) + if meshes.last().ambient { 1nat } else { 0nat }
    }
}

/// Dashboard of a run: its meshes grouped from the stored records, the summary over them,
/// the cluster with its mesh counts, and the savings estimate.
pub open spec fn run_dashboard(d: DashboardResponse, run: ClusterAssessmentRun, cluster: ClusterDashboard, last_updated: Seq<char>) -> bool {
    &&& d.cluster_ref == run.cluster_ref
    &&& mesh_groups(d.mesh_instances@, run.applications@)
    &&& crate::compute::total_rows(d.mesh_instances@) == run.applications@.len()
    &&& summary_of(d.summary, mesh_counts(d.mesh_instances@))
    &&& d.cluster.name == cluster.name
    &&& d.cluster.platform == cluster.platform
    &&& d.cluster.mesh_flavor == cluster.mesh_flavor
    &&& d.cluster.istio_version == cluster.istio_version
    &&& d.cluster.mesh_instance_count == d.mesh_instances@.len()
    &&& d.cluster.ambient_mesh_count == ambient_meshes(d.mesh_instances@)
    &&& d.migration_savings == if migrated_workloads(d.mesh_instances@) <= u32::MAX {
        Some(
            MigrationSavingsSummary {
                migrated_workloads: migrated_workloads(d.mesh_instances@) as u32,
                estimated_sidecar_proxies_removed: migrated_workloads(d.mesh_instances@) as u32,
                estimated_memory_mib_saved: saturating_times(migrated_workloads(d.mesh_instances@), 128) as u32,
                estimated_cpu_millicores_saved: saturating_times(migrated_workloads(d.mesh_instances@), 100) as u32,
            },
        )
    } else {
        None
    }
    &&& d.last_updated@ == last_updated
    &&& d.connection_namespace is None
    &&& d.connection_name is None
    &&& d.reachable is None
    &&& d.is_hub is None
}

pub proof fn lemma_mesh_counts_sum(meshes: Seq<MeshInstanceDashboard>)
    requires
        forall|i: int| 0 <= i < meshes.len() ==> counts_of((#[trigger] meshes[i]).counts, meshes[i].applications@),
    ensures
        crate::compute::sum_six(mesh_counts(meshes)) == crate::compute::total_rows(meshes),
    decreases meshes.len(),
{
    if meshes.len() > 0 {
        let p = meshes.drop_last();
        assert forall|i: int| 0 <= i < p.len() implies counts_of((#[trigger] p[i]).counts, p[i].applications@) by {
            assert(p[i] == meshes[i]);
        }
        lemma_mesh_counts_sum(p);
        assert(mesh_counts(meshes).drop_last() =~= mesh_counts(p));
        assert(counts_of(meshes[meshes.len() - 1].counts, meshes[meshes.len() - 1].applications@));
        crate::compute::lemma_status_counts_partition(meshes.last().applications@);
    }
}

/// A dashboard built from an assessment run counts each of its applications once: the
/// summary's total is the number of applications.
pub proof fn law_dashboard_counts_every_application(d: DashboardResponse, run: ClusterAssessmentRun, c: ClusterDashboard, t: Seq<char>)
    requires
        run_dashboard(d, run, c, t),
    ensures
        d.summary.total == run.applications@.len(),
{
    lemma_mesh_counts_sum(d.mesh_instances@);
    crate::compute::lemma_sum_counts_bounds(mesh_counts(d.mesh_instances@));
}

/// Dashboard of a stored assessment run, stamped with the given time.
pub fn dashboard_from_run_at(run: &ClusterAssessmentRun, cluster: ClusterDashboard, last_updated: String) -> (r: DashboardResponse)
    ensures
        run_dashboard(r, *run, cluster, last_updated@),
{
    let meshes = mesh_groups_from_applications(&run.applications);
    let mut parts: Vec<StatusCounts> = Vec::new();
    let mut ambient: usize = 0;
    let mut i: usize = 0;
    while i < meshes.len()
        invariant
            i <= meshes@.len(),
            parts@ == mesh_counts(meshes@.take(i as int)),
            ambient == ambient_meshes(meshes@.take(i as int)),
            ambient <= i,
        decreases meshes@.len() - i,
    {
        assert(meshes@.take(i + 1).drop_last() =~= meshes@.take(i as int));
        parts.push(meshes[i].counts);
        if meshes[i].ambient {
            ambient += 1;
        }
        i += 1;
        assert(parts@ =~= mesh_counts(meshes@.take(i as int)));
    }
    assert(meshes@.take(meshes@.len() as int) =~= meshes@);
    let napps = run.applications.len();
    proof {
        lemma_mesh_counts_sum(meshes@);
        assert(crate::compute::sum_six(parts@) == napps);
    }
    let summary = aggregate_fleet_summary(parts.as_slice());
    let migration_savings = checked_migration_savings(&meshes);
    let mesh_instance_count = meshes.len();
    DashboardResponse {
        cluster_ref: run.cluster_ref.clone(),
        cluster: ClusterDashboard {
            name: cluster.name,
            platform: cluster.platform,
            mesh_flavor: cluster.mesh_flavor,
            istio_version: cluster.istio_version,
            mesh_instance_count,
            ambient_mesh_count: ambient,
        },
        summary,
        mesh_instances: meshes,
        migration_savings,
        last_updated,
        connection_namespace: None,
        connection_name: None,
        reachable: None,
        is_hub: None,
    }
}

/// Build dashboard API payload from the same assessment run stored in `application_assessments`,
/// stamped with the current time.
pub fn dashboard_from_assessment_run(run: &ClusterAssessmentRun, cluster: ClusterDashboard) -> (r: DashboardResponse)
    ensures
        exists|t: Seq<char>| run_dashboard(r, *run, cluster, t),
        crate::clock::instant_text(r.last_updated@),
{
    let now = crate::clock::utc_now_rfc3339();
    dashboard_from_run_at(run, cluster, now)
}

/// Attach hub/spoke metadata: a connection's namespace and name when the cluster reference
/// names a connection, the hub otherwise; either way reachable.
pub fn apply_cluster_ref_metadata(cluster_ref: &str, connection: Option<(String, String)>, response: &mut DashboardResponse)
    ensures
        final(response).cluster_ref@ == cluster_ref@,
        final(response).cluster == old(response).cluster,
        final(response).summary == old(response).summary,
        final(response).mesh_instances == old(response).mesh_instances,
        final(response).migration_savings == old(response).migration_savings,
        final(response).last_updated == old(response).last_updated,
        final(response).reachable == Some(true),
        match connection {
            Some((ns, name)) => {
                &&& final(response).connection_namespace == Some(ns)
                &&& final(response).connection_name == Some(name)
                &&& final(response).is_hub == Some(false)
            },
            None => {
                &&& final(response).connection_namespace is None
                &&& final(response).connection_name is None
                &&& final(response).is_hub == Some(true)
            },
        },
{
    response.cluster_ref = owned(cluster_ref);
    match connection {
        Some((ns, name)) => {
            response.connection_namespace = Some(ns);
            response.connection_name = Some(name);
            response.is_hub = Some(false);
            response.reachable = Some(true);
        },
        None => {
            response.connection_namespace = None;
            response.connection_name = None;
            response.is_hub = Some(true);
            response.reachable = Some(true);
        },
    }
}

} // verus!
