//! Request handling of the dashboard endpoints: which cluster a request is about, what the
//! handler does next given what it has learned so far, and how the fleet view is completed
//! with the registered cluster connections.

use vstd::prelude::*;

use crate::dashboard::{ClusterDashboard, DashboardResponse, FleetClusterDashboard, FleetDashboardResponse, StatusCounts};
use crate::model::opt_view;
use crate::refs::vec_contains_str;
use crate::rollouts::ApiError;
use crate::text::{owned, strings_view};

verus! {

/// Query of the single-cluster dashboard.
#[derive(Debug)]
pub struct DashboardQuery {
    pub cluster_ref: Option<String>,
    /// When true, rebuild dashboard from latest assessment in DB (or live cluster).
    pub fresh: bool,
    /// When true, return only persisted DB snapshots (no live cluster recompute).
    pub db_only: bool,
    /// When true with `db_only`, rebuild from latest assessment rows then return snapshot.
    pub rebuild_assess: bool,
}

/// Query of the fleet dashboard.
#[derive(Debug)]
pub struct FleetDashboardQuery {
    pub fresh: bool,
    pub db_only: bool,
    pub rebuild_assess: bool,
}

/// The cluster a request is about: the requested reference when it is given and not
/// empty, else the hub's own reference.
pub open spec fn chosen_cluster_ref(requested: Option<Seq<char>>, hub_default: Seq<char>) -> Seq<char> {
    match requested {
        Some(s) => if s.len() > 0 {
            s
        } else {
            hub_default
        },
        None => hub_default,
    }
}

/// The cluster reference a request names, or the hub's own when it names none.
pub fn requested_cluster_ref(requested: Option<String>, hub_default: String) -> (r: String)
    ensures
        r@ == chosen_cluster_ref(opt_view(requested), hub_default@),
{
    match requested {
        Some(s) => if s.as_str().is_empty() {
            hub_default
        } else {
            s
        },
        None => hub_default,
    }
}

/// What the single-cluster dashboard handler has just learned.
#[derive(Clone, Copy, Debug)]
pub enum DashboardEvent {
    /// The request arrived; `has_store` tells whether a database is configured.
    Started,
    /// A rebuild from the latest assessment rows ended: whether it produced a dashboard,
    /// and whether that dashboard was written back as a snapshot.
    Rebuilt { produced: bool, synced: bool },
    /// The stored snapshot was looked up.
    SnapshotLoaded { found: bool },
    /// The staleness of the stored snapshot was checked; `None` when the check failed.
    StalenessChecked { stale: Option<bool> },
}

/// What the single-cluster dashboard handler does next.
#[derive(Debug)]
pub enum DashboardAction {
    /// Answer the error.
    Fail(ApiError),
    /// Rebuild from the latest assessment rows, overlay live rollout phases when asked,
    /// and write the result back as a snapshot.
    RebuildFromAssessment { overlay_rollouts: bool },
    /// Look up the stored snapshot, overlaying live rollout phases when asked.
    LoadSnapshot { overlay_rollouts: bool },
    /// Ask whether a newer assessment than the stored snapshot exists.
    CheckStaleness,
    /// Answer the stored snapshot, refreshing it from the cluster in the background when asked.
    ReturnSnapshot { refresh_in_background: bool },
    /// Answer the rebuilt dashboard.
    ReturnRebuilt,
    /// Compute the dashboard from the live cluster, store it and answer it.
    ComputeLive,
}

/// Whether an action is the error with the given status and message.
pub open spec fn fails_with(a: DashboardAction, status: u16, message: Seq<char>) -> bool {
    a matches DashboardAction::Fail(e) && e.status == status && e.message@ == message
}

/// The step of the single-cluster dashboard handler after an event.
pub open spec fn dashboard_decision(q: DashboardQuery, has_store: bool, e: DashboardEvent, a: DashboardAction) -> bool {
    match e {
        DashboardEvent::Started => if q.db_only {
            if !has_store {
                fails_with(a, 503, "DATABASE_URL not configured"@)
            } else if q.rebuild_assess {
                a == DashboardAction::RebuildFromAssessment { overlay_rollouts: false }
            } else {
                a == DashboardAction::LoadSnapshot { overlay_rollouts: false }
            }
        } else if has_store {
            a == DashboardAction::LoadSnapshot { overlay_rollouts: true }
        } else {
            a == DashboardAction::ComputeLive
        },
        DashboardEvent::Rebuilt { produced, synced } => if produced && synced {
            a == DashboardAction::ReturnRebuilt
        } else if q.db_only {
            a == DashboardAction::LoadSnapshot { overlay_rollouts: false }
        } else {
            a == DashboardAction::ComputeLive
        },
        DashboardEvent::SnapshotLoaded { found } => if q.db_only {
            if found {
                a == DashboardAction::ReturnSnapshot { refresh_in_background: false }
            } else {
                fails_with(a, 404, "no dashboard snapshot in database for this cluster; run assessment"@)
            }
        } else if found {
            if q.fresh {
                a == DashboardAction::ReturnSnapshot { refresh_in_background: true }
            } else {
                a == DashboardAction::CheckStaleness
            }
        } else if q.fresh {
            a == DashboardAction::ComputeLive
        } else {
            a == DashboardAction::RebuildFromAssessment { overlay_rollouts: true }
        },
        DashboardEvent::StalenessChecked { stale } => if stale == Some(false) {
            a == DashboardAction::ReturnSnapshot { refresh_in_background: false }
        } else if q.fresh {
            a == DashboardAction::ComputeLive
        } else {
            a == DashboardAction::RebuildFromAssessment { overlay_rollouts: true }
        },
    }
}

/// The next step of the single-cluster dashboard handler. A failed staleness check counts
/// as stale.
pub fn next_dashboard_action(q: &DashboardQuery, has_store: bool, e: DashboardEvent) -> (a: DashboardAction)
    ensures
        dashboard_decision(*q, has_store, e, a),
{
    match e {
        DashboardEvent::Started => {
            if q.db_only {
                if !has_store {
                    DashboardAction::Fail(ApiError { status: 503, message: owned("DATABASE_URL not configured") })
                } else if q.rebuild_assess {
                    DashboardAction::RebuildFromAssessment { overlay_rollouts: false }
                } else {
                    DashboardAction::LoadSnapshot { overlay_rollouts: false }
                }
            } else if has_store {
                DashboardAction::LoadSnapshot { overlay_rollouts: true }
            } else {
                DashboardAction::ComputeLive
            }
        },
        DashboardEvent::Rebuilt { produced, synced } => {
            if produced && synced {
                DashboardAction::ReturnRebuilt
            } else if q.db_only {
                DashboardAction::LoadSnapshot { overlay_rollouts: false }
            } else {
                DashboardAction::ComputeLive
            }
        },
        DashboardEvent::SnapshotLoaded { found } => {
            if q.db_only {
                if found {
                    DashboardAction::ReturnSnapshot { refresh_in_background: false }
                } else {
                    DashboardAction::Fail(ApiError {
                        status: 404,
                        message: owned("no dashboard snapshot in database for this cluster; run assessment"),
                    })
                }
            } else if found {
                if q.fresh {
                    DashboardAction::ReturnSnapshot { refresh_in_background: true }
                } else {
                    DashboardAction::CheckStaleness
                }
            } else if q.fresh {
                DashboardAction::ComputeLive
            } else {
                DashboardAction::RebuildFromAssessment { overlay_rollouts: true }
            }
        },
        DashboardEvent::StalenessChecked { stale } => {
            let fresh_enough = match stale {
                Some(s) => !s,
                None => false,
            };
            if fresh_enough {
                DashboardAction::ReturnSnapshot { refresh_in_background: false }
            } else if q.fresh {
                DashboardAction::ComputeLive
            } else {
                DashboardAction::RebuildFromAssessment { overlay_rollouts: true }
            }
        },
    }
}

/// A dashboard-only request is never answered from the live cluster, and its snapshot's
/// staleness is never asked for.
pub proof fn law_db_only_never_live(q: DashboardQuery, has_store: bool, e: DashboardEvent, a: DashboardAction)
    requires
        q.db_only,
        !(e is StalenessChecked),
        dashboard_decision(q, has_store, e, a),
    ensures
        !(a is ComputeLive),
        !(a is CheckStaleness),
        !(a is ReturnSnapshot) || a == (DashboardAction::ReturnSnapshot { refresh_in_background: false }),
{
}

/// Without a database, a dashboard-only request is refused as unavailable.
pub proof fn law_db_only_needs_store(q: DashboardQuery, a: DashboardAction)
    requires
        q.db_only,
        dashboard_decision(q, false, DashboardEvent::Started, a),
    ensures
        a matches DashboardAction::Fail(err) && err.status == 503,
{
}

/// A fresh request that finds a stored snapshot answers it at once and refreshes the
/// dashboard in the background.
pub proof fn law_fresh_answers_snapshot(q: DashboardQuery, a: DashboardAction)
    requires
        q.fresh,
        !q.db_only,
        dashboard_decision(q, true, DashboardEvent::SnapshotLoaded { found: true }, a),
    ensures
        a == (DashboardAction::ReturnSnapshot { refresh_in_background: true }),
{
}

/// What the fleet dashboard handler has just learned.
#[derive(Debug)]
pub enum FleetEvent {
    /// The request arrived.
    Started,
    /// Every cluster was rebuilt from its latest assessment; the error text when that failed.
    RebuiltAll { error: Option<String> },
    /// The stored fleet was looked up; the error text when the lookup failed.
    FleetLoaded { found: bool, error: Option<String> },
    /// The hub's dashboard was computed live and made into a fleet of one cluster.
    HubComputed,
}

/// What the fleet dashboard handler does next.
#[derive(Debug)]
pub enum FleetAction {
    /// Answer the error.
    Fail(ApiError),
    /// Rebuild every cluster's dashboard from its latest assessment.
    RebuildAll,
    /// Look up the stored fleet; connect to the hub cluster first when asked.
    LoadFleet { connect_hub: bool },
    /// Compute the hub's dashboard live and make it a fleet of one cluster.
    ComputeHubLive,
    /// Answer the stored fleet as it is.
    ReturnStored,
    /// Overlay rollout phases, add registered connections and display names, then answer;
    /// refresh every cluster in the background when asked.
    Decorate { refresh_in_background: bool },
}

/// Whether a fleet action is the error with the given status and message.
pub open spec fn fleet_fails_with(a: FleetAction, status: u16, message: Seq<char>) -> bool {
    a matches FleetAction::Fail(e) && e.status == status && e.message@ == message
}

/// The step of the fleet dashboard handler after an event.
pub open spec fn fleet_decision(q: FleetDashboardQuery, has_store: bool, e: FleetEvent, a: FleetAction) -> bool {
    match e {
        FleetEvent::Started => if !has_store {
            fleet_fails_with(a, 503, "DATABASE_URL not configured"@)
        } else if q.db_only && q.rebuild_assess {
            a == FleetAction::RebuildAll
        } else {
            a == FleetAction::LoadFleet { connect_hub: !q.db_only }
        },
        FleetEvent::RebuiltAll { error } => match error {
            Some(m) => fleet_fails_with(a, 500, m@),
            None => a == FleetAction::LoadFleet { connect_hub: !q.db_only },
        },
        FleetEvent::FleetLoaded { found, error } => match error {
            Some(m) => fleet_fails_with(a, 500, m@),
            None => if found {
                if q.db_only {
                    a == FleetAction::ReturnStored
                } else {
                    a == FleetAction::Decorate { refresh_in_background: q.fresh }
                }
            } else if q.db_only {
                fleet_fails_with(a, 404, "no fleet dashboard snapshots in database; run assessment on clusters"@)
            } else {
                a == FleetAction::ComputeHubLive
            },
        },
        FleetEvent::HubComputed => a == FleetAction::Decorate { refresh_in_background: q.fresh },
    }
}

/// A fleet request answered from stored snapshots only never computes the hub's
/// dashboard live, nor decorates the fleet with live cluster data.
pub proof fn law_fleet_db_only_stays_stored(q: FleetDashboardQuery, has_store: bool, e: FleetEvent, a: FleetAction)
    requires
        q.db_only,
        !(e is HubComputed),
        fleet_decision(q, has_store, e, a),
    ensures
        !(a is ComputeHubLive),
        !(a is Decorate),
        !(a matches FleetAction::LoadFleet { connect_hub: true }),
{
}

/// The next step of the fleet dashboard handler.
pub fn next_fleet_action(q: &FleetDashboardQuery, has_store: bool, e: FleetEvent) -> (a: FleetAction)
    ensures
        fleet_decision(*q, has_store, e, a),
{
    match e {
        FleetEvent::Started => {
            if !has_store {
                FleetAction::Fail(ApiError { status: 503, message: owned("DATABASE_URL not configured") })
            } else if q.db_only && q.rebuild_assess {
                FleetAction::RebuildAll
            } else {
                FleetAction::LoadFleet { connect_hub: !q.db_only }
            }
        },
        FleetEvent::RebuiltAll { error } => match error {
            Some(m) => FleetAction::Fail(ApiError { status: 500, message: m }),
            None => FleetAction::LoadFleet { connect_hub: !q.db_only },
        },
        FleetEvent::FleetLoaded { found, error } => match error {
            Some(m) => FleetAction::Fail(ApiError { status: 500, message: m }),
            None => {
                if found {
                    if q.db_only {
                        FleetAction::ReturnStored
                    } else {
                        FleetAction::Decorate { refresh_in_background: q.fresh }
                    }
                } else if q.db_only {
                    FleetAction::Fail(ApiError {
                        status: 404,
                        message: owned("no fleet dashboard snapshots in database; run assessment on clusters"),
                    })
                } else {
                    FleetAction::ComputeHubLive
                }
            },
        },
        FleetEvent::HubComputed => FleetAction::Decorate { refresh_in_background: q.fresh },
    }
}

/// The fleet of one cluster made of a single dashboard.
pub fn fleet_from_dashboard(response: DashboardResponse) -> (r: FleetDashboardResponse)
    ensures
        r.summary == response.summary,
        r.last_updated == response.last_updated,
        r.clusters@.len() == 1,
        r.clusters@[0] == (FleetClusterDashboard {
            cluster_ref: response.cluster_ref,
            cluster: response.cluster,
            summary: response.summary,
            mesh_instances: response.mesh_instances,
            last_updated: response.last_updated,
        }),
{
    let summary = response.summary;
    let last_updated = response.last_updated.clone();
    let entry = FleetClusterDashboard {
        cluster_ref: response.cluster_ref,
        cluster: response.cluster,
        summary: response.summary,
        mesh_instances: response.mesh_instances,
        last_updated: response.last_updated,
    };
    let mut clusters: Vec<FleetClusterDashboard> = Vec::new();
    clusters.push(entry);
    FleetDashboardResponse { summary, clusters, last_updated }
}


/// A cluster connection registered on the hub, as the fleet view needs it.
#[derive(Debug)]
pub struct FleetConnection {
    /// Name of the connection resource; a connection without one is ignored.
    pub name: Option<String>,
    /// Whether the connection designates the hub itself.
    pub hub: bool,
    /// Reference of the cluster the connection reaches, used when it is not the hub.
    pub spoke_cluster_ref: String,
    pub display_name: String,
}

/// Cluster reference of a connection: the hub's own for a hub connection.
pub open spec fn connection_ref(c: FleetConnection, hub_ref: Seq<char>) -> Seq<char> {
    if c.hub {
        hub_ref
    } else {
        c.spoke_cluster_ref@
    }
}

/// Clusters that connections add to a fleet whose known references are `seen`: in order,
/// each named connection whose reference is not known yet, with its display name.
pub open spec fn added_clusters(seen: Seq<Seq<char>>, conns: Seq<FleetConnection>, hub_ref: Seq<char>) -> Seq<(Seq<char>, Seq<char>)>
    decreases conns.len(),
{
    if conns.len() == 0 {
        Seq::empty()
    } else {
        let c = conns[0];
        let rest = conns.subrange(1, conns.len() as int);
        if c.name is None {
            added_clusters(seen, rest, hub_ref)
        } else {
            let r = connection_ref(c, hub_ref);
            if seen.contains(r) {
                added_clusters(seen, rest, hub_ref)
            } else {
                seq![(r, c.display_name@)] + added_clusters(seen.push(r), rest, hub_ref)
            }
        }
    }
}

/// Clusters added from connections are new and listed once: none of them is already
/// known, and no two of them share a reference.
pub proof fn law_added_clusters_are_new_and_distinct(seen: Seq<Seq<char>>, conns: Seq<FleetConnection>, hub_ref: Seq<char>)
    ensures
        forall|i: int|
            0 <= i < added_clusters(seen, conns, hub_ref).len() ==> !seen.contains(
                #[trigger] added_clusters(seen, conns, hub_ref)[i].0,
            ),
        forall|i: int, j: int|
            0 <= i < j < added_clusters(seen, conns, hub_ref).len() ==> #[trigger] added_clusters(seen, conns, hub_ref)[i].0
                != #[trigger] added_clusters(seen, conns, hub_ref)[j].0,
    decreases conns.len(),
{
    if conns.len() > 0 {
        let c = conns[0];
        let rest = conns.subrange(1, conns.len() as int);
        if c.name is None {
            law_added_clusters_are_new_and_distinct(seen, rest, hub_ref);
            assert(added_clusters(seen, conns, hub_ref) == added_clusters(seen, rest, hub_ref));
        } else {
            let r = connection_ref(c, hub_ref);
            if seen.contains(r) {
                law_added_clusters_are_new_and_distinct(seen, rest, hub_ref);
                assert(added_clusters(seen, conns, hub_ref) == added_clusters(seen, rest, hub_ref));
            } else {
                let tail = added_clusters(seen.push(r), rest, hub_ref);
                law_added_clusters_are_new_and_distinct(seen.push(r), rest, hub_ref);
                let all = added_clusters(seen, conns, hub_ref);
                assert(all == seq![(r, c.display_name@)] + tail);
                assert forall|i: int| 0 <= i < all.len() implies !seen.contains(#[trigger] all[i].0) by {
                    if i > 0 {
                        assert(all[i] == tail[i - 1]);
                        assert(!seen.push(r).contains(tail[i - 1].0));
                        if seen.contains(tail[i - 1].0) {
                            let k = choose|k: int| 0 <= k < seen.len() && seen[k] == tail[i - 1].0;
                            assert(seen.push(r)[k] == seen[k]);
                        }
                    }
                }
                assert forall|i: int, j: int| 0 <= i < j < all.len() implies #[trigger] all[i].0 != #[trigger] all[j].0 by {
                    assert(all[j] == tail[j - 1]);
                    if i == 0 {
                        assert(seen.push(r)[seen.len() as int] == r);
                        assert(!seen.push(r).contains(tail[j - 1].0));
                    } else {
                        assert(all[i] == tail[i - 1]);
                    }
                }
            }
        }
    }
}

/// References of fleet entries.
pub open spec fn cluster_refs(s: Seq<FleetClusterDashboard>) -> Seq<Seq<char>> {
    s.map_values(|c: FleetClusterDashboard| c.cluster_ref@)
}

/// Whether an entry is the empty placeholder of a registered cluster with no dashboard yet.
pub open spec fn placeholder_entry(e: FleetClusterDashboard, r: Seq<char>, name: Seq<char>, last_updated: Seq<char>) -> bool {
    &&& e.cluster_ref@ == r
    &&& e.cluster.name@ == name
    &&& e.cluster.platform@ == Seq::<char>::empty()
    &&& e.cluster.mesh_flavor@ == Seq::<char>::empty()
    &&& e.cluster.istio_version is None
    &&& e.cluster.mesh_instance_count == 0
    &&& e.cluster.ambient_mesh_count == 0
    &&& e.summary == crate::dashboard::no_counts()
    &&& e.mesh_instances@.len() == 0
    &&& e.last_updated@ == last_updated
}

/// Add an empty entry for every registered cluster that the fleet does not show yet, so
/// that clusters without a dashboard are listed too.
pub fn merge_fleet_with_connections(fleet: FleetDashboardResponse, connections: &Vec<FleetConnection>, hub_ref: &str) -> (r: FleetDashboardResponse)
    ensures
        r.summary == fleet.summary,
        r.last_updated == fleet.last_updated,
        r.clusters@.len() == fleet.clusters@.len() + added_clusters(cluster_refs(fleet.clusters@), connections@, hub_ref@).len(),
        r.clusters@.subrange(0, fleet.clusters@.len() as int) == fleet.clusters@,
        forall|k: int|
            0 <= k < added_clusters(cluster_refs(fleet.clusters@), connections@, hub_ref@).len() ==> placeholder_entry(
                #[trigger] r.clusters@[fleet.clusters@.len() + k],
                added_clusters(cluster_refs(fleet.clusters@), connections@, hub_ref@)[k].0,
                added_clusters(cluster_refs(fleet.clusters@), connections@, hub_ref@)[k].1,
                fleet.last_updated@,
            ),
{
    let ghost olds = fleet.clusters@;
    let ghost n0 = olds.len();
    let ghost total = added_clusters(cluster_refs(olds), connections@, hub_ref@);
    let mut fleet = fleet;
    let mut seen: Vec<String> = Vec::new();
    let mut i: usize = 0;
    while i < fleet.clusters.len()
        invariant
            fleet.clusters@ == olds,
            i <= olds.len(),
            strings_view(seen@) == cluster_refs(olds.take(i as int)),
        decreases olds.len() - i,
    {
        let ghost before = seen@;
        seen.push(fleet.clusters[i].cluster_ref.clone());
        proof {
            assert(olds.take(i + 1) =~= olds.take(i as int).push(olds[i as int]));
            assert(strings_view(seen@) =~= strings_view(before).push(olds[i as int].cluster_ref@));
            assert(cluster_refs(olds.take(i + 1)) =~= cluster_refs(olds.take(i as int)).push(olds[i as int].cluster_ref@));
        }
        i += 1;
    }
    proof {
        assert(olds.take(olds.len() as int) =~= olds);
    }
    let ghost summary0 = fleet.summary;
    let ghost lu_text = fleet.last_updated;
    let ghost lu0 = fleet.last_updated@;
    let ghost mut done: Seq<(Seq<char>, Seq<char>)> = Seq::empty();
    proof {
        assert(connections@.subrange(0, connections@.len() as int) =~= connections@);
        assert(done + total =~= total);
    }
    let mut j: usize = 0;
    while j < connections.len()
        invariant
            j <= connections@.len(),
            fleet.summary == summary0,
            fleet.last_updated == lu_text,
            lu0 == lu_text@,
            fleet.clusters@.len() == n0 + done.len(),
            fleet.clusters@.subrange(0, n0 as int) == olds,
            done + added_clusters(strings_view(seen@), connections@.subrange(j as int, connections@.len() as int), hub_ref@)
                == total,
            forall|k: int|
                0 <= k < done.len() ==> placeholder_entry(#[trigger] fleet.clusters@[n0 + k], done[k].0, done[k].1, lu0),
        decreases connections@.len() - j,
    {
        let c = &connections[j];
        let ghost rest = connections@.subrange(j as int, connections@.len() as int);
        proof {
            assert(rest[0] == connections@[j as int]);
            assert(rest.subrange(1, rest.len() as int) =~= connections@.subrange(j + 1, connections@.len() as int));
        }
        if c.name.is_some() {
            let r: String = if c.hub {
                owned(hub_ref)
            } else {
                c.spoke_cluster_ref.clone()
            };
            if !vec_contains_str(&seen, r.as_str()) {
                let entry = FleetClusterDashboard {
                    cluster_ref: r.clone(),
                    cluster: ClusterDashboard {
                        name: c.display_name.clone(),
                        platform: String::new(),
                        mesh_flavor: String::new(),
                        istio_version: None,
                        mesh_instance_count: 0,
                        ambient_mesh_count: 0,
                    },
                    summary: StatusCounts::zero(),
                    mesh_instances: Vec::new(),
                    last_updated: fleet.last_updated.clone(),
                };
                let ghost cl_before = fleet.clusters@;
                let ghost seen_before = strings_view(seen@);
                let ghost tail = added_clusters(seen_before.push(r@), rest.subrange(1, rest.len() as int), hub_ref@);
                fleet.clusters.push(entry);
                seen.push(r);
                proof {
                    assert(strings_view(seen@) =~= seen_before.push(r@));
                    assert(fleet.clusters@.subrange(0, n0 as int) =~= cl_before.subrange(0, n0 as int));
                    assert(done + (seq![(r@, c.display_name@)] + tail) =~= done.push((r@, c.display_name@)) + tail);
                    done = done.push((r@, c.display_name@));
                    assert forall|k: int| 0 <= k < done.len() implies placeholder_entry(
                        #[trigger] fleet.clusters@[n0 + k], done[k].0, done[k].1, lu0) by {
                        if k < done.len() - 1 {
                            assert(fleet.clusters@[n0 + k] == cl_before[n0 + k]);
                        }
                    }
                }
            }
        }
        j += 1;
    }
    proof {
        assert(connections@.subrange(connections@.len() as int, connections@.len() as int) =~= Seq::<FleetConnection>::empty());
        assert(done + Seq::<(Seq<char>, Seq<char>)>::empty() =~= done);
        assert(done == total);
    }
    fleet
}

/// Display name registered for a cluster reference: the first pair naming it.
pub open spec fn display_for(names: Seq<(String, String)>, r: Seq<char>) -> Option<Seq<char>>
    decreases names.len(),
{
    if names.len() == 0 {
        None
    } else if names[0].0@ == r {
        Some(names[0].1@)
    } else {
        display_for(names.subrange(1, names.len() as int), r)
    }
}

/// Display name registered for a cluster reference.
fn find_display<'a>(names: &'a Vec<(String, String)>, r: &str) -> (d: Option<&'a String>)
    ensures
        match d {
            Some(v) => display_for(names@, r@) == Some(v@),
            None => display_for(names@, r@) is None,
        },
{
    let mut i: usize = 0;
    proof {
        assert(names@.subrange(0, names@.len() as int) =~= names@);
    }
    while i < names.len()
        invariant
            i <= names@.len(),
            display_for(names@, r@) == display_for(names@.subrange(i as int, names@.len() as int), r@),
        decreases names@.len() - i,
    {
        let ghost rest = names@.subrange(i as int, names@.len() as int);
        proof {
            assert(rest[0] == names@[i as int]);
            assert(rest.subrange(1, rest.len() as int) =~= names@.subrange(i + 1, names@.len() as int));
        }
        if crate::text::str_eq(names[i].0.as_str(), r) {
            return Some(&names[i].1);
        }
        i += 1;
    }
    None
}

/// Whether a fleet entry is the given one with its cluster's display name replaced by the
/// registered one, where a name is registered.
pub open spec fn renamed_entry(o: FleetClusterDashboard, n: FleetClusterDashboard, names: Seq<(String, String)>) -> bool {
    &&& n.cluster_ref == o.cluster_ref
    &&& n.cluster.name@ == (match display_for(names, o.cluster_ref@) {
        Some(d) => d,
        None => o.cluster.name@,
    })
    &&& n.cluster.platform == o.cluster.platform
    &&& n.cluster.mesh_flavor == o.cluster.mesh_flavor
    &&& n.cluster.istio_version == o.cluster.istio_version
    &&& n.cluster.mesh_instance_count == o.cluster.mesh_instance_count
    &&& n.cluster.ambient_mesh_count == o.cluster.ambient_mesh_count
    &&& n.summary == o.summary
    &&& n.mesh_instances == o.mesh_instances
    &&& n.last_updated == o.last_updated
}

/// Show each fleet cluster under the display name registered for its reference.
pub fn enrich_fleet_display_names(fleet: FleetDashboardResponse, names: &Vec<(String, String)>) -> (r: FleetDashboardResponse)
    ensures
        r.summary == fleet.summary,
        r.last_updated == fleet.last_updated,
        r.clusters@.len() == fleet.clusters@.len(),
        forall|k: int| 0 <= k < fleet.clusters@.len() ==> renamed_entry(#[trigger] fleet.clusters@[k], r.clusters@[k], names@),
{
    let ghost olds = fleet.clusters@;
    let FleetDashboardResponse { summary, clusters, last_updated } = fleet;
    let mut rest = clusters;
    let mut out: Vec<FleetClusterDashboard> = Vec::new();
    while rest.len() > 0
        invariant
            out@.len() + rest@.len() == olds.len(),
            rest@ == olds.subrange(out@.len() as int, olds.len() as int),
            forall|k: int| 0 <= k < out@.len() ==> renamed_entry(#[trigger] olds[k], out@[k], names@),
        decreases rest@.len(),
    {
        let ghost before = rest@;
        let mut c = rest.remove(0);
        proof {
            assert(c == olds[out@.len() as int]);
            assert(rest@ =~= olds.subrange(out@.len() as int + 1, olds.len() as int));
        }
        match find_display(names, c.cluster_ref.as_str()) {
            Some(d) => {
                c.cluster.name = d.clone();
            },
            None => {},
        }
        out.push(c);
    }
    FleetDashboardResponse { summary, clusters: out, last_updated }
}

/// Identity of a spoke cluster reached through a connection.
#[derive(Debug)]
pub struct SpokeDashboardMeta {
    pub display_name: String,
    pub connection_namespace: String,
    pub connection_name: String,
}

/// Stamp a dashboard computed live with its cluster reference, display name and reach: a
/// spoke shows under its connection's display name and names the connection; the hub
/// shows under the given name. Either way it was reachable.
pub fn stamp_live_dashboard(response: &mut DashboardResponse, cluster_ref: &str, display_name: String, spoke: Option<SpokeDashboardMeta>)
    ensures
        final(response).cluster_ref@ == cluster_ref@,
        final(response).cluster.name == match spoke {
            Some(m) => m.display_name,
            None => display_name,
        },
        final(response).cluster.platform == old(response).cluster.platform,
        final(response).cluster.mesh_flavor == old(response).cluster.mesh_flavor,
        final(response).cluster.istio_version == old(response).cluster.istio_version,
        final(response).cluster.mesh_instance_count == old(response).cluster.mesh_instance_count,
        final(response).cluster.ambient_mesh_count == old(response).cluster.ambient_mesh_count,
        final(response).summary == old(response).summary,
        final(response).mesh_instances == old(response).mesh_instances,
        final(response).migration_savings == old(response).migration_savings,
        final(response).last_updated == old(response).last_updated,
        final(response).reachable == Some(true),
        final(response).is_hub == Some(spoke is None),
        final(response).connection_namespace == match spoke {
            Some(m) => Some(m.connection_namespace),
            None => None,
        },
        final(response).connection_name == match spoke {
            Some(m) => Some(m.connection_name),
            None => None,
        },
{
    response.cluster_ref = owned(cluster_ref);
    match spoke {
        Some(m) => {
            response.cluster.name = m.display_name;
            response.connection_namespace = Some(m.connection_namespace);
            response.connection_name = Some(m.connection_name);
            response.is_hub = Some(false);
        },
        None => {
            response.cluster.name = display_name;
            response.connection_namespace = None;
            response.connection_name = None;
            response.is_hub = Some(true);
        },
    }
    response.reachable = Some(true);
}

/// Refusal of a dashboard request that names the hub's own connection.
pub fn hub_local_refusal(cluster_ref: &str) -> (r: String)
    ensures
        r@ == "cluster_ref "@ + cluster_ref@ + " is hub-local; omit clusterRef for hub dashboard"@,
{
    let mut m = owned("cluster_ref ");
    m.append(cluster_ref);
    m.append(" is hub-local; omit clusterRef for hub dashboard");
    m
}

} // verus!
