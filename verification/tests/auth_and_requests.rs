use ambientor::audit;
use ambientor::auth::{
    authorization, authorize_url, check_login, default_policies, default_roles_from_setting, hash_password, oidc_placeholder_hash, object_in_namespace, object_pattern,
    oidc_config_from_settings, oidc_db_username, oidc_login_roles, split_words, username_from_claims,
    verify_password, AuthError, OidcConfig, OidcError, OidcPreset, PasswordError, UserRecord,
};
use ambientor::inventory::{approval_permission, bearer_token, token_refusal};
use ambientor::requests::{
    auth_config_response, callback_code_and_state, candidate_count_query, default_ambientor_ns,
    default_migration_candidates_only, default_operator_sa, default_page, default_page_size, register_roles,
    callback_reply, reply_for, requested_enrollment, ApplicationsQuery, CallbackReply, OidcCallbackQuery,
};
use ambientor::scans;
use ambientor::text::comma_separated;

#[test]
fn oidc_presets() {
    let k = OidcConfig::keycloak("https://kc/realms/a".into(), "portal".into(), "https://app/cb".into());
    assert_eq!(k.client_secret_env, "AMBIENTOR_OIDC_CLIENT_SECRET");
    assert_eq!(k.scopes, vec!["openid", "profile", "email"]);
    assert_eq!(k.preset, Some(OidcPreset::Keycloak));
    let o = OidcConfig::okta("https://okta".into(), "c".into(), "r".into());
    assert_eq!(o.preset, Some(OidcPreset::Okta));
    let a = OidcConfig::azure_ad("tenant-1", "c".into(), "r".into());
    assert_eq!(a.issuer_url, "https://login.microsoftonline.com/tenant-1/v2.0");
    assert_eq!(a.preset, Some(OidcPreset::AzureAd));
}

#[test]
fn authorize_url_encodes_redirect_and_scopes() {
    let c = OidcConfig::keycloak("https://idp.example.com/realms/x//".into(), "portal".into(), "https://app.example.com/cb?a=b".into());
    assert_eq!(
        authorize_url(&c, "xyz"),
        "https://idp.example.com/realms/x/authorize?client_id=portal&redirect_uri=https%3A%2F%2Fapp.example.com%2Fcb%3Fa%3Db&response_type=code&scope=openid%20profile%20email&state=xyz"
    );
}

#[test]
fn oidc_settings_and_roles() {
    assert!(oidc_config_from_settings(None, Some("c".into()), Some("r".into()), None, None).is_none());
    let c = oidc_config_from_settings(Some("i".into()), Some("c".into()), Some("r".into()), None, Some(" openid  groups\temail ".into()))
        .unwrap();
    assert_eq!(c.scopes, vec!["openid", "groups", "email"]);
    assert_eq!(c.client_secret_env, "AMBIENTOR_OIDC_CLIENT_SECRET");
    assert!(c.preset.is_none());
    assert_eq!(default_roles_from_setting(Some(" mesh-admin, ,viewer ,")), vec!["mesh-admin", "viewer"]);
    assert!(default_roles_from_setting(None).is_empty());
    assert_eq!(split_words(""), Vec::<String>::new());
    assert_eq!(oidc_login_roles(&vec![]), vec!["viewer"]);
    assert_eq!(oidc_login_roles(&vec!["auditor".to_string()]), vec!["auditor"]);
    assert_eq!(oidc_db_username("abc"), "oidc:abc");
    assert_eq!(username_from_claims(None, None, "sub-1"), "oidc-sub-1");
    assert_eq!(username_from_claims(None, Some("a@b".into()), "sub-1"), "a@b");
    assert_eq!(username_from_claims(Some("alice".into()), Some("a@b".into()), "s"), "alice");
}

#[test]
fn error_texts() {
    assert_eq!(OidcError::InvalidState.message(), "invalid or expired login state");
    assert_eq!(OidcError::Discovery("x".into()).message(), "discovery failed: x");
    assert_eq!(PasswordError::Invalid.message(), "invalid credentials");
    assert_eq!(AuthError::Rbac("boom".into()).message(), "rbac error: boom");
    assert_eq!(AuthError::Db("d".into()).message(), "database error: d");
}

#[test]
fn password_hash_round_trip() {
    let h = hash_password("hunter42").unwrap();
    assert!(h.starts_with("$argon2id$"));
    assert!(verify_password("hunter42", &h).is_ok());
    assert!(matches!(verify_password("wrong", &h), Err(PasswordError::Invalid)));
    assert!(matches!(verify_password("hunter42", "not a phc string"), Err(PasswordError::Hash(_))));
}

#[test]
fn rbac_objects_and_authorization() {
    assert_eq!(object_in_namespace("bookinfo", "rollout", "bookinfo-reviews"), "rollout/bookinfo-reviews");
    assert_eq!(object_pattern("plan", "*"), "plan/*");
    assert!(matches!(authorization(&vec![Ok(false), Ok(true)], &Err("x".into())), Ok(true)));
    assert!(matches!(authorization(&vec![Ok(false)], &Ok(false)), Ok(false)));
    assert!(matches!(authorization(&vec![Err("e".into()), Ok(true)], &Ok(true)), Err(AuthError::Rbac(m)) if m == "e"));
    assert!(matches!(authorization(&vec![], &Err("u".into())), Err(AuthError::Rbac(m)) if m == "u"));
}

#[test]
fn bearer_tokens_and_permissions() {
    assert_eq!(bearer_token(Some("Bearer abc")), Some("abc".to_string()));
    assert_eq!(bearer_token(Some("bearer abc")), Some("abc".to_string()));
    assert_eq!(bearer_token(Some("Basic abc")), None);
    assert_eq!(bearer_token(None), None);
    assert_eq!(token_refusal(false).message, "missing Authorization: Bearer token");
    assert_eq!(token_refusal(true).status, 401);
    assert!(approval_permission(Ok(true)).is_ok());
    let e = approval_permission(Ok(false)).unwrap_err();
    assert_eq!((e.status, e.message.as_str()), (403, "insufficient permissions"));
    let e = approval_permission(Err(AuthError::Token("t".into()))).unwrap_err();
    assert_eq!((e.status, e.message.as_str()), (500, "token error: t"));
}

#[test]
fn query_defaults_and_limits() {
    assert_eq!(default_page(), 1);
    assert_eq!(default_page_size(), 50);
    assert!(default_migration_candidates_only());
    assert_eq!(audit::default_limit(), 100);
    assert_eq!(scans::default_limit(), 50);
    assert_eq!(audit::effective_limit(0), 1);
    assert_eq!(audit::effective_limit(9999), 500);
    assert_eq!(scans::effective_limit(9999), 200);
    assert_eq!(scans::effective_limit(7), 7);
    assert_eq!(default_ambientor_ns(), "ambientor-system");
    assert_eq!(default_operator_sa(), "ambientor-operator");
    let q = candidate_count_query("c1");
    assert_eq!(q.cluster_ref, "c1");
    assert_eq!((q.page, q.page_size, q.migration_candidates_only), (1, 50, true));
}

#[test]
fn applications_query_uses_hub_when_no_cluster() {
    let q = ApplicationsQuery {
        cluster_ref: Some(String::new()),
        q: Some("rev".into()),
        risk_level: None,
        mesh_revision: None,
        migration_candidates_only: false,
        page: 3,
        page_size: 20,
    };
    let l = q.into_list_query("in-cluster".into());
    assert_eq!(l.cluster_ref, "in-cluster");
    assert_eq!(l.search.as_deref(), Some("rev"));
    assert_eq!((l.page, l.page_size, l.migration_candidates_only), (3, 20, false));
}

#[test]
fn enrollment_lists_and_roles() {
    assert_eq!(requested_enrollment(Some(" a, b ,,c ")), vec!["a", "b", "c"]);
    assert!(requested_enrollment(None).is_empty());
    assert_eq!(comma_separated(""), Vec::<String>::new());
    assert_eq!(register_roles(vec![]), vec!["viewer"]);
    assert_eq!(register_roles(vec!["mesh-admin".into()]), vec!["mesh-admin"]);
    let c = auth_config_response(true, false);
    assert!(c.enabled && c.local_login && c.require_auth_for_approve);
    assert!(c.oidc_login_url.is_none());
    assert_eq!(auth_config_response(false, true).oidc_login_url.as_deref(), Some("/api/v1/auth/oidc/login"));
}

#[test]
fn oidc_callback_parameters() {
    let q = OidcCallbackQuery { code: None, state: None, error: Some("access_denied".into()), error_description: None };
    let e = callback_code_and_state(q).unwrap_err();
    assert_eq!((e.status, e.message.as_str()), (400, "OIDC error: access_denied"));
    let q = OidcCallbackQuery { code: None, state: Some("s".into()), error: None, error_description: None };
    assert_eq!(callback_code_and_state(q).unwrap_err().message, "missing code");
    let q = OidcCallbackQuery { code: Some("c".into()), state: None, error: None, error_description: None };
    assert_eq!(callback_code_and_state(q).unwrap_err().message, "missing state");
    let q = OidcCallbackQuery { code: Some("c".into()), state: Some("s".into()), error: None, error_description: Some("x".into()) };
    assert_eq!(callback_code_and_state(q).unwrap(), ("c".to_string(), "s".to_string()));
}

fn user(hash: &str) -> UserRecord {
    UserRecord { id: uuid::Uuid::nil(), username: "alice".into(), password_hash: hash.into(), roles: vec!["admin".into()] }
}

#[test]
fn local_login_checks_the_stored_hash() {
    let h = hash_password("s3cret").unwrap();
    let u = check_login(Ok(Some(user(&h))), "s3cret").unwrap();
    assert_eq!(u.username, "alice");
    assert_eq!(u.roles, vec!["admin".to_string()]);
    assert!(matches!(check_login(Ok(Some(user(&h))), "wrong"), Err(AuthError::InvalidCredentials)));
    assert!(matches!(check_login(Ok(Some(user("not-a-hash"))), "s3cret"), Err(AuthError::InvalidCredentials)));
    assert!(matches!(check_login(Ok(None), "s3cret"), Err(AuthError::InvalidCredentials)));
    match check_login(Err("connection refused".into()), "s3cret") {
        Err(AuthError::Db(m)) => assert_eq!(m, "connection refused"),
        other => panic!("unexpected {:?}", other.map(|u| u.username)),
    }
}

#[test]
fn oidc_users_get_an_unguessable_hash() {
    let h = oidc_placeholder_hash().unwrap();
    assert!(h.starts_with("$argon2"));
    assert!(check_login(Ok(Some(user(&h))), "").is_err());
}

#[test]
fn access_model_starts_with_default_roles() {
    let p = default_policies();
    assert_eq!(p.len(), 8);
    let rows: Vec<(&str, &str, &str, &str)> =
        p.iter().map(|r| (r.subject.as_str(), r.domain.as_str(), r.object.as_str(), r.action.as_str())).collect();
    assert_eq!(rows[0], ("platform-admin", "*", "*", ".*"));
    assert_eq!(rows[2], ("migration-operator", "*", "rollout/*", "approve|execute|read"));
    assert_eq!(rows[4], ("operator", "*", "rollout/*", "approve|execute|read"));
    assert_eq!(rows[6], ("viewer", "*", "*", "read"));
    assert_eq!(rows[7], ("auditor", "*", "audit/*", "read"));
    assert!(p.iter().all(|r| r.effect == "allow"));
}

#[test]
fn oidc_callback_redirects_with_token() {
    match callback_reply("tok".into(), Some("https://portal.example/login")).unwrap() {
        CallbackReply::Redirect(u) => assert_eq!(u, "https://portal.example/login?token=tok"),
        CallbackReply::Token(_) => panic!("expected a redirect"),
    }
    match callback_reply("a b".into(), Some("https://portal.example/cb?x=1")).unwrap() {
        CallbackReply::Redirect(u) => assert_eq!(u, "https://portal.example/cb?x=1&token=a+b"),
        CallbackReply::Token(_) => panic!("expected a redirect"),
    }
    match callback_reply("tok".into(), None).unwrap() {
        CallbackReply::Token(t) => assert_eq!(t.token, "tok"),
        CallbackReply::Redirect(_) => panic!("expected the token"),
    }
    let e = callback_reply("tok".into(), Some("not a url")).unwrap_err();
    assert_eq!(e.status, 500);
    assert_eq!(e.message, "relative URL without a base");
    let e = reply_for("tok".into(), Some(Err("bad".into()))).unwrap_err();
    assert_eq!((e.status, e.message.as_str()), (500, "bad"));
}
