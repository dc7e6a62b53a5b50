//! Cluster connections of the hub: name rules, request checks, list items and hints.

use vstd::prelude::*;
use vstd::string::*;
use vstd::utf8::encode_utf8;

use crate::plans::{trim_text, trimmed};
use crate::rollouts::ApiError;
use crate::text::{owned, str_eq};

verus! {

/// A character of a Kubernetes resource name: an ASCII letter or digit, or `-`.
pub open spec fn name_char(c: char) -> bool {
    ('a' <= c && c <= 'z') || ('A' <= c && c <= 'Z') || ('0' <= c && c <= '9') || c == '-'
}

/// Why a connection name is refused, if it is: empty, longer than 63 bytes, or not a
/// valid resource name.
pub open spec fn name_refusal(name: Seq<char>, bytes: nat) -> Option<Seq<char>> {
    if name.len() == 0 {
        Some("name is required"@)
    } else if bytes > 63 {
        Some("name too long"@)
    } else if !(forall|i: int| 0 <= i < name.len() ==> name_char(name[i])) || name[0] == '-' || name.last() == '-' {
        Some("name must be a valid Kubernetes resource name"@)
    } else {
        None
    }
}

/// Check a connection name.
pub fn validate_connection_name(name: &str) -> (r: Result<(), ApiError>)
    ensures
        match name_refusal(name@, encode_utf8(name@).len() as usize as nat) {
            None => r is Ok,
            Some(m) => r matches Err(e) && e.status == 400 && e.message@ == m,
        },
{
    let n = name.unicode_len();
    if n == 0 {
        return Err(ApiError { status: 400, message: owned("name is required") });
    }
    if name.len() > 63 {
        return Err(ApiError { status: 400, message: owned("name too long") });
    }
    let mut i: usize = 0;
    let mut ok = true;
    while i < n
        invariant
            n == name@.len(),
            i <= n,
            ok == forall|j: int| 0 <= j < i ==> name_char(name@[j]),
        decreases n - i,
    {
        let c = name.get_char(i);
        let good = ('a' <= c && c <= 'z') || ('A' <= c && c <= 'Z') || ('0' <= c && c <= '9') || c == '-';
        assert(good == name_char(name@[i as int]));
        ok = ok && good;
        i += 1;
    }
    let first = name.get_char(0);
    let last = name.get_char(n - 1);
    assert(name@.last() == last);
    if !ok || first == '-' || last == '-' {
        return Err(ApiError { status: 400, message: owned("name must be a valid Kubernetes resource name") });
    }
    Ok(())
}

/// Reference to the secret holding a connection's credentials.
#[derive(Debug)]
pub struct SecretRefRequest {
    pub name: String,
    pub namespace: Option<String>,
}

/// Request to create a connection.
#[derive(Debug)]
pub struct CreateConnectionRequest {
    pub name: String,
    pub namespace: Option<String>,
    pub display_name: String,
    pub api_server: Option<String>,
    pub credentials_secret_ref: SecretRefRequest,
    pub hub: bool,
}

/// A connection as created on the hub.
#[derive(Debug)]
pub struct ConnectionSpec {
    pub name: String,
    pub namespace: String,
    pub display_name: String,
    pub api_server: Option<String>,
    pub secret_name: String,
    pub secret_namespace: Option<String>,
    pub hub: bool,
}

/// Some non-empty text, or nothing.
pub open spec fn non_empty(o: Option<String>) -> Option<Seq<char>> {
    match o {
        Some(s) => if s@.len() > 0 { Some(s@) } else { None },
        None => None,
    }
}

/// Some text that is not blank, or nothing.
pub open spec fn non_blank(o: Option<String>) -> Option<Seq<char>> {
    match o {
        Some(s) => if trimmed(s@).len() > 0 { Some(s@) } else { None },
        None => None,
    }
}

/// The connection a valid create request describes: in namespace `ambientor-system` unless
/// it names one, with trimmed display and secret names and without a blank API server;
/// refused with an invalid name, a blank display name or a blank secret name.
pub fn connection_from_request(body: &CreateConnectionRequest) -> (r: Result<ConnectionSpec, ApiError>)
    ensures
        match name_refusal(body.name@, encode_utf8(body.name@).len() as usize as nat) {
            Some(m) => r matches Err(e) && e.status == 400 && e.message@ == m,
            None => if trimmed(body.display_name@).len() == 0 {
                r matches Err(e) && e.status == 400 && e.message@ == "name and displayName are required"@
            } else if trimmed(body.credentials_secret_ref.name@).len() == 0 {
                r matches Err(e) && e.status == 400 && e.message@ == "credentialsSecretRef.name is required"@
            } else {
                r matches Ok(c) && {
                    &&& c.name@ == body.name@
                    &&& c.namespace@ == match non_empty(body.namespace) {
                        Some(n) => n,
                        None => "ambientor-system"@,
                    }
                    &&& c.display_name@ == trimmed(body.display_name@)
                    &&& crate::model::opt_view(c.api_server) == non_blank(body.api_server)
                    &&& c.secret_name@ == trimmed(body.credentials_secret_ref.name@)
                    &&& crate::model::opt_view(c.secret_namespace) == non_empty(body.credentials_secret_ref.namespace)
                    &&& c.hub == body.hub
                }
            },
        },
{
    validate_connection_name(body.name.as_str())?;
    let namespace = match &body.namespace {
        Some(n) => if n.unicode_len() > 0 {
            n.clone()
        } else {
            owned("ambientor-system")
        },
        None => owned("ambientor-system"),
    };
    let display = trim_text(body.display_name.as_str());
    if body.name.unicode_len() == 0 || display.unicode_len() == 0 {
        return Err(ApiError { status: 400, message: owned("name and displayName are required") });
    }
    let secret = trim_text(body.credentials_secret_ref.name.as_str());
    if secret.unicode_len() == 0 {
        return Err(ApiError { status: 400, message: owned("credentialsSecretRef.name is required") });
    }
    let api_server = match &body.api_server {
        Some(a) => {
            let t = trim_text(a.as_str());
            if t.unicode_len() > 0 {
                Some(a.clone())
            } else {
                None
            }
        },
        None => None,
    };
    let secret_namespace = match &body.credentials_secret_ref.namespace {
        Some(n) => if n.unicode_len() > 0 {
            Some(n.clone())
        } else {
            None
        },
        None => None,
    };
    Ok(ConnectionSpec {
        name: body.name.clone(),
        namespace,
        display_name: display,
        api_server,
        secret_name: secret,
        secret_namespace,
        hub: body.hub,
    })
}

/// A condition of a connection's status.
#[derive(Debug)]
pub struct ConnectionCondition {
    pub condition_type: String,
    pub status: String,
    pub message: Option<String>,
}

/// A connection as stored on the hub.
#[derive(Debug)]
pub struct ConnectionInfo {
    pub name: Option<String>,
    pub namespace: Option<String>,
    pub display_name: String,
    pub api_server: Option<String>,
    pub secret_name: String,
    pub secret_namespace: Option<String>,
    pub hub: bool,
    pub phase: String,
    pub last_sync_time: Option<String>,
    pub conditions: Vec<ConnectionCondition>,
}

/// Secret reference of a listed connection.
#[derive(Debug)]
pub struct SecretRefResponse {
    pub name: String,
    pub namespace: Option<String>,
}

/// One connection of the list.
#[derive(Debug)]
pub struct ConnectionListItem {
    pub name: String,
    pub namespace: String,
    pub display_name: String,
    pub cluster_ref: String,
    pub phase: String,
    pub last_sync_time: Option<String>,
    pub ready_message: Option<String>,
    pub rollout_access: Option<bool>,
    pub rollout_access_message: Option<String>,
    pub hub: bool,
    pub api_server: Option<String>,
    pub credentials_secret_ref: SecretRefResponse,
}

/// A connection with the way to manage it from GitOps.
#[derive(Debug)]
pub struct ConnectionDetailResponse {
    pub item: ConnectionListItem,
    pub gitops_hint: String,
}

/// A connection as YAML, with the command that applies it.
#[derive(Debug)]
pub struct ConnectionExportResponse {
    pub yaml: String,
    pub apply_command: String,
}

/// First condition of a type.
pub open spec fn condition_of(cs: Seq<ConnectionCondition>, t: Seq<char>) -> Option<ConnectionCondition>
    decreases cs.len(),
{
    if cs.len() == 0 {
        None
    } else if cs[0].condition_type@ == t {
        Some(cs[0])
    } else {
        condition_of(cs.drop_first(), t)
    }
}

fn find_condition<'a>(cs: &'a Vec<ConnectionCondition>, t: &str) -> (r: Option<&'a ConnectionCondition>)
    ensures
        match r {
            Some(c) => condition_of(cs@, t@) == Some(*c),
            None => condition_of(cs@, t@) is None,
        },
{
    let mut i: usize = 0;
    assert(cs@.subrange(0, cs@.len() as int) =~= cs@);
    while i < cs.len()
        invariant
            i <= cs@.len(),
            condition_of(cs@, t@) == condition_of(cs@.subrange(i as int, cs@.len() as int), t@),
        decreases cs@.len() - i,
    {
        let ghost rest = cs@.subrange(i as int, cs@.len() as int);
        assert(rest[0] == cs@[i as int]);
        assert(rest.drop_first() =~= cs@.subrange(i + 1, cs@.len() as int));
        if str_eq(cs[i].condition_type.as_str(), t) {
            return Some(&cs[i]);
        }
        i += 1;
    }
    None
}

/// List item of a named connection, under the given cluster reference; its namespace
/// defaults to `default`, its ready message and rollout access come from its `Ready` and
/// `RolloutAccess` conditions.
pub fn connection_to_item(conn: &ConnectionInfo, cluster_ref: String) -> (r: Option<ConnectionListItem>)
    ensures
        conn.name is Some <==> r is Some,
        r matches Some(item) ==> {
            let ready = condition_of(conn.conditions@, "Ready"@);
            let access = condition_of(conn.conditions@, "RolloutAccess"@);
            &&& item.name@ == conn.name->0@
            &&& item.namespace@ == match conn.namespace {
                Some(n) => n@,
                None => "default"@,
            }
            &&& item.display_name == conn.display_name
            &&& item.cluster_ref == cluster_ref
            &&& item.phase == conn.phase
            &&& item.last_sync_time == conn.last_sync_time
            &&& item.ready_message == match ready {
                Some(c) => c.message,
                None => None,
            }
            &&& item.rollout_access == match access {
                Some(c) => Some(c.status@ == "True"@),
                None => None,
            }
            &&& item.rollout_access_message == match access {
                Some(c) => c.message,
                None => None,
            }
            &&& item.hub == conn.hub
            &&& item.api_server == conn.api_server
            &&& item.credentials_secret_ref.name == conn.secret_name
            &&& item.credentials_secret_ref.namespace == conn.secret_namespace
        },
{
    let name = match &conn.name {
        Some(n) => n.clone(),
        None => return None,
    };
    let namespace = match &conn.namespace {
        Some(n) => n.clone(),
        None => owned("default"),
    };
    let ready_message = match find_condition(&conn.conditions, "Ready") {
        Some(c) => crate::model::clone_opt_string(&c.message),
        None => None,
    };
    let (rollout_access, rollout_access_message) = match find_condition(&conn.conditions, "RolloutAccess") {
        Some(c) => (Some(str_eq(c.status.as_str(), "True")), crate::model::clone_opt_string(&c.message)),
        None => (None, None),
    };
    Some(ConnectionListItem {
        name,
        namespace,
        display_name: conn.display_name.clone(),
        cluster_ref,
        phase: conn.phase.clone(),
        last_sync_time: crate::model::clone_opt_string(&conn.last_sync_time),
        ready_message,
        rollout_access,
        rollout_access_message,
        hub: conn.hub,
        api_server: crate::model::clone_opt_string(&conn.api_server),
        credentials_secret_ref: SecretRefResponse {
            name: conn.secret_name.clone(),
            namespace: crate::model::clone_opt_string(&conn.secret_namespace),
        },
    })
}

/// The exported form of a connection, applied back with `kubectl apply`.
#[derive(Debug)]
pub struct ConnectionExportDoc {
    pub api_version: String,
    pub kind: String,
    pub name: String,
    pub namespace: String,
    pub display_name: String,
    pub api_server: Option<String>,
    pub secret_name: String,
    pub secret_namespace: Option<String>,
    pub hub: bool,
}

/// Exported form of a connection: refused with 500 when it has no name; its namespace
/// defaults to `ambientor-system`.
pub fn connection_export_doc(conn: &ConnectionInfo) -> (r: Result<ConnectionExportDoc, ApiError>)
    ensures
        conn.name is None <==> r is Err,
        r matches Err(e) ==> e.status == 500 && e.message@ == "missing name"@,
        r matches Ok(d) ==> {
            &&& d.api_version@ == "ambientor.io/v1alpha1"@
            &&& d.kind@ == "ClusterConnection"@
            &&& Some(d.name) == conn.name
            &&& d.namespace@ == match conn.namespace {
                Some(n) => n@,
                None => "ambientor-system"@,
            }
            &&& d.display_name == conn.display_name
            &&& d.api_server == conn.api_server
            &&& d.secret_name == conn.secret_name
            &&& d.secret_namespace == conn.secret_namespace
            &&& d.hub == conn.hub
        },
{
    let name = match &conn.name {
        Some(n) => n.clone(),
        None => return Err(ApiError { status: 500, message: owned("missing name") }),
    };
    let namespace = match &conn.namespace {
        Some(n) => n.clone(),
        None => owned("ambientor-system"),
    };
    Ok(ConnectionExportDoc {
        api_version: owned("ambientor.io/v1alpha1"),
        kind: owned("ClusterConnection"),
        name,
        namespace,
        display_name: conn.display_name.clone(),
        api_server: crate::model::clone_opt_string(&conn.api_server),
        secret_name: conn.secret_name.clone(),
        secret_namespace: crate::model::clone_opt_string(&conn.secret_namespace),
        hub: conn.hub,
    })
}

/// Answer to a failed cluster API call on connections: a missing object is 404, a
/// conflicting one 409, anything else 500, each with the error's text.
pub fn kube_error_response(api_error: Option<(u16, &str)>, text: &str) -> (r: ApiError)
    ensures
        match api_error {
            Some((404, m)) => r.status == 404 && r.message@ == m@,
            Some((409, m)) => r.status == 409 && r.message@ == "ClusterConnection already exists: "@ + m@,
            _ => r.status == 500 && r.message@ == text@,
        },
{
    match api_error {
        Some((404, m)) => ApiError { status: 404, message: owned(m) },
        Some((409, m)) => {
            let mut s = owned("ClusterConnection already exists: ");
            s.append(m);
            ApiError { status: 409, message: s }
        },
        _ => ApiError { status: 500, message: owned(text) },
    }
}

/// How the connection is managed from GitOps.
pub fn gitops_hint(namespace: Option<&str>, name: &str) -> (r: String)
    ensures
        r@ == "Same object as `kubectl apply -f` / GitOps: ClusterConnection "@ + match namespace {
            Some(n) => n@,
            None => "ambientor-system"@,
        } + "/"@ + name@
            + ". Portal create/update writes this CR on the hub; CLI and operator reconcile from spec."@,
{
    let mut s = owned("Same object as `kubectl apply -f` / GitOps: ClusterConnection ");
    match namespace {
        Some(n) => s.append(n),
        None => s.append("ambientor-system"),
    }
    s.append("/");
    s.append(name);
    s.append(". Portal create/update writes this CR on the hub; CLI and operator reconcile from spec.");
    s
}

/// Command that applies an exported connection.
pub fn export_apply_command(namespace: &str, name: &str) -> (r: String)
    ensures
        r@ == "kubectl apply -f "@ + name@ + ".yaml  # namespace "@ + namespace@,
{
    let mut s = owned("kubectl apply -f ");
    s.append(name);
    s.append(".yaml  # namespace ");
    s.append(namespace);
    s
}

/// The hub's own connection is managed on the hub: it can neither be deleted nor assessed
/// remotely.
pub fn refuse_hub_connection(hub: bool, deleting: bool) -> (r: Result<(), ApiError>)
    ensures
        !hub <==> r is Ok,
        r matches Err(e) ==> e.status == 400 && e.message@ == if deleting {
            "refusing to delete hub ClusterConnection; manage via GitOps on the hub"@
        } else {
            "cannot assess hub-local connection; use POST /api/v1/assess"@
        },
{
    if !hub {
        return Ok(());
    }
    if deleting {
        Err(ApiError {
            status: 400,
            message: owned("refusing to delete hub ClusterConnection; manage via GitOps on the hub"),
        })
    } else {
        Err(ApiError { status: 400, message: owned("cannot assess hub-local connection; use POST /api/v1/assess") })
    }
}

/// Connection namespace and name of a dashboard: the ones it records, else those of a
/// `namespace/name` cluster reference other than `in-cluster`.
pub open spec fn connection_parts(
    ns: Option<Seq<char>>,
    name: Option<Seq<char>>,
    cluster_ref: Seq<char>,
) -> (Option<Seq<char>>, Option<Seq<char>>) {
    if ns is Some && name is Some {
        (ns, name)
    } else if cluster_ref == "in-cluster"@ {
        (None, None)
    } else {
        match crate::text::first_index_of(cluster_ref, '/') {
            Some(i) => if i > 0 && i + 1 < cluster_ref.len() {
                (Some(cluster_ref.subrange(0, i)), Some(cluster_ref.subrange(i + 1, cluster_ref.len() as int)))
            } else {
                (None, None)
            },
            None => (None, None),
        }
    }
}

/// Connection namespace and name of a dashboard.
pub fn connection_parts_from_response(response: &crate::dashboard::DashboardResponse) -> (r: (Option<String>, Option<String>))
    ensures
        (crate::model::opt_view(r.0), crate::model::opt_view(r.1)) == connection_parts(
            crate::model::opt_view(response.connection_namespace),
            crate::model::opt_view(response.connection_name),
            response.cluster_ref@,
        ),
{
    match (&response.connection_namespace, &response.connection_name) {
        (Some(ns), Some(name)) => return (Some(ns.clone()), Some(name.clone())),
        _ => {},
    }
    let cr = response.cluster_ref.as_str();
    if str_eq(cr, "in-cluster") {
        return (None, None);
    }
    match crate::text::find_char(cr, '/') {
        Some(i) => {
            let n = cr.unicode_len();
            if i > 0 && i + 1 < n {
                (Some(crate::text::substring(cr, 0, i)), Some(crate::text::substring(cr, i + 1, n)))
            } else {
                (None, None)
            }
        },
        None => (None, None),
    }
}

} // verus!
