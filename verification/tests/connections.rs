use ambientor::connections::{
    connection_from_request, connection_to_item, export_apply_command, gitops_hint, refuse_hub_connection,
    validate_connection_name, ConnectionCondition, ConnectionInfo, CreateConnectionRequest, SecretRefRequest,
};

fn request(name: &str, display: &str, secret: &str) -> CreateConnectionRequest {
    CreateConnectionRequest {
        name: name.into(),
        namespace: None,
        display_name: display.into(),
        api_server: Some("  ".into()),
        credentials_secret_ref: SecretRefRequest { name: secret.into(), namespace: Some(String::new()) },
        hub: false,
    }
}

#[test]
fn connection_names_are_kubernetes_names() {
    assert!(validate_connection_name("east-1").is_ok());
    assert_eq!(validate_connection_name("").unwrap_err().message, "name is required");
    assert_eq!(validate_connection_name(&"a".repeat(64)).unwrap_err().message, "name too long");
    assert!(validate_connection_name(&"a".repeat(63)).is_ok());
    assert!(validate_connection_name("East").is_ok());
    let e = validate_connection_name("east_1").unwrap_err();
    assert_eq!((e.status, e.message.as_str()), (400, "name must be a valid Kubernetes resource name"));
    assert!(validate_connection_name("-east").is_err());
    assert!(validate_connection_name("east-").is_err());
    assert!(validate_connection_name("east.west").is_err());
}

#[test]
fn create_request_becomes_connection() {
    let c = connection_from_request(&request("east", "  East cluster ", " east-kubeconfig ")).unwrap();
    assert_eq!(c.name, "east");
    assert_eq!(c.namespace, "ambientor-system");
    assert_eq!(c.display_name, "East cluster");
    assert_eq!(c.api_server, None);
    assert_eq!(c.secret_name, "east-kubeconfig");
    assert_eq!(c.secret_namespace, None);
    assert!(!c.hub);
    let mut r = request("east", "East", "s");
    r.namespace = Some("fleet".into());
    r.api_server = Some("https://east:6443".into());
    let c = connection_from_request(&r).unwrap();
    assert_eq!(c.namespace, "fleet");
    assert_eq!(c.api_server.as_deref(), Some("https://east:6443"));
    let e = connection_from_request(&request("east", "   ", "s")).unwrap_err();
    assert_eq!((e.status, e.message.as_str()), (400, "name and displayName are required"));
    let e = connection_from_request(&request("east", "East", " ")).unwrap_err();
    assert_eq!(e.message, "credentialsSecretRef.name is required");
    let e = connection_from_request(&request("", "East", "s")).unwrap_err();
    assert_eq!(e.message, "name is required");
}

#[test]
fn connection_list_items_read_conditions() {
    let conn = ConnectionInfo {
        name: Some("east".into()),
        namespace: None,
        display_name: "East".into(),
        api_server: None,
        secret_name: "east-kubeconfig".into(),
        secret_namespace: None,
        hub: false,
        phase: "Ready".into(),
        last_sync_time: Some("2024-01-01T00:00:00Z".into()),
        conditions: vec![
            ConnectionCondition { condition_type: "Ready".into(), status: "True".into(), message: Some("connected".into()) },
            ConnectionCondition { condition_type: "RolloutAccess".into(), status: "False".into(), message: Some("forbidden".into()) },
        ],
    };
    let item = connection_to_item(&conn, "default/east".into()).unwrap();
    assert_eq!(item.namespace, "default");
    assert_eq!(item.cluster_ref, "default/east");
    assert_eq!(item.ready_message.as_deref(), Some("connected"));
    assert_eq!(item.rollout_access, Some(false));
    assert_eq!(item.rollout_access_message.as_deref(), Some("forbidden"));
    assert_eq!(item.credentials_secret_ref.name, "east-kubeconfig");
    let mut unnamed = conn;
    unnamed.name = None;
    assert!(connection_to_item(&unnamed, "x".into()).is_none());
}

#[test]
fn connection_hints_and_hub_refusals() {
    assert_eq!(
        gitops_hint(None, "east"),
        "Same object as `kubectl apply -f` / GitOps: ClusterConnection ambientor-system/east. Portal create/update writes this CR on the hub; CLI and operator reconcile from spec."
    );
    assert!(gitops_hint(Some("fleet"), "east").contains("ClusterConnection fleet/east."));
    assert_eq!(export_apply_command("fleet", "east"), "kubectl apply -f east.yaml  # namespace fleet");
    assert!(refuse_hub_connection(false, true).is_ok());
    let e = refuse_hub_connection(true, true).unwrap_err();
    assert_eq!((e.status, e.message.as_str()), (400, "refusing to delete hub ClusterConnection; manage via GitOps on the hub"));
    let e = refuse_hub_connection(true, false).unwrap_err();
    assert_eq!(e.message, "cannot assess hub-local connection; use POST /api/v1/assess");
}
