use ambientor::manifest::{httproute_document, DocNode};
use ambientor::translate::{
    is_valid_httproute_hostname, normalize_backend_service_name, virtual_service_to_httproute, VsDestination,
    VsHttpRoute, VsRedirect, VsSpec, VsUriMatch,
};

fn yaml_value(node: &DocNode) -> serde_yaml::Value {
    match node {
        DocNode::Mapping(entries) => {
            let mut m = serde_yaml::Mapping::new();
            for (k, v) in entries {
                m.insert(serde_yaml::Value::String(k.clone()), yaml_value(v));
            }
            serde_yaml::Value::Mapping(m)
        }
        DocNode::List(items) => serde_yaml::Value::Sequence(items.iter().map(yaml_value).collect()),
        DocNode::Text(t) => serde_yaml::Value::String(t.clone()),
        DocNode::Number(n) => serde_yaml::Value::Number((*n).into()),
    }
}

fn manifest(route: &ambientor::translate::HttpRouteManifest) -> String {
    serde_yaml::to_string(&yaml_value(&httproute_document(route))).unwrap()
}

fn dest(host: &str, port: u64) -> VsDestination {
    VsDestination { host: Some(host.into()), port_number: Some(port), weight: None }
}

fn route_to(host: &str, port: u64) -> VsHttpRoute {
    VsHttpRoute { redirect: None, matches: None, route: Some(vec![dest(host, port)]) }
}

#[test]
fn translates_prefix_route() {
    let spec = VsSpec {
        has_tcp: false,
        has_tls: false,
        hosts: Some(vec![Some("reviews".into())]),
        http: Some(vec![VsHttpRoute {
            redirect: None,
            matches: Some(vec![Some(VsUriMatch { prefix: Some("/reviews".into()), exact: None, regex: None })]),
            route: Some(vec![dest("reviews", 9080)]),
        }]),
    };
    let result = virtual_service_to_httproute("bookinfo", "reviews", Some(&spec)).unwrap();
    let route = &result.route;
    assert_eq!(route.namespace, "bookinfo");
    assert_eq!(route.rules[0].matches[0].path_type, "PathPrefix");
    assert_eq!(route.rules[0].matches[0].value, "/reviews");
    assert_eq!(route.name, "reviews-ambientor");
    assert!(result.warnings.iter().any(|w| w.contains("parentRefs")));
    let text = manifest(route);
    assert!(text.contains("kind: HTTPRoute"));
    assert!(text.contains("PathPrefix"));
    assert!(text.contains("/reviews"));
    assert!(text.contains("reviews-ambientor"));
}

#[test]
fn omits_bare_wildcard_host() {
    let spec = VsSpec {
        has_tcp: false,
        has_tls: false,
        hosts: Some(vec![Some("*".into())]),
        http: Some(vec![route_to("sidecar-app", 8080)]),
    };
    let result = virtual_service_to_httproute("mesh-sidecar-2", "sidecar-app-vs", Some(&spec)).unwrap();
    assert!(result.route.hostnames.is_empty());
    assert!(!manifest(&result.route).contains("hostnames:"));
    assert!(result.warnings.iter().any(|w| w.contains("wildcard")));
}

#[test]
fn rejects_tcp_only() {
    let spec = VsSpec { has_tcp: true, has_tls: false, hosts: None, http: None };
    assert!(virtual_service_to_httproute("ns", "svc", Some(&spec)).is_err());
}

#[test]
fn normalizes_fqdn_destination_to_service_name() {
    let spec = VsSpec {
        has_tcp: false,
        has_tls: false,
        hosts: Some(vec![Some("demo4.apps.example.com".into())]),
        http: Some(vec![route_to("productpage.bookinfo-demo4.svc.cluster.local", 9080)]),
    };
    let result = virtual_service_to_httproute("bookinfo-demo4", "bookinfo", Some(&spec)).unwrap();
    let backend = &result.route.rules[0].backend_refs[0];
    assert_eq!(backend.name, "productpage");
    assert!(!backend.name.contains("svc.cluster.local"));
    let text = manifest(&result.route);
    assert!(text.contains("name: productpage"));
    assert!(!text.contains("svc.cluster.local"));
}

#[test]
fn translates_redirect_rule() {
    let spec = VsSpec {
        has_tcp: false,
        has_tls: false,
        hosts: Some(vec![Some("demo4.apps.example.com".into())]),
        http: Some(vec![
            VsHttpRoute {
                redirect: Some(VsRedirect {
                    scheme: Some("https".into()),
                    uri: Some("/productpage".into()),
                    redirect_code: Some(302),
                }),
                matches: Some(vec![Some(VsUriMatch { prefix: None, exact: Some("/".into()), regex: None })]),
                route: None,
            },
            route_to("productpage", 9080),
        ]),
    };
    let result = virtual_service_to_httproute("bookinfo-demo4", "bookinfo", Some(&spec)).unwrap();
    let redirect = result.route.rules[0].redirect.as_ref().expect("a RequestRedirect filter");
    assert_eq!(redirect.replace_full_path.as_deref(), Some("/productpage"));
    assert_eq!(redirect.status_code, 302);
    assert_eq!(redirect.scheme.as_deref(), Some("https"));
    let text = manifest(&result.route);
    assert!(text.contains("RequestRedirect"));
    assert!(text.contains("/productpage"));
}

#[test]
fn missing_spec_is_refused() {
    assert_eq!(
        virtual_service_to_httproute("ns", "svc", None).unwrap_err(),
        "VirtualService missing spec"
    );
}

#[test]
fn spec_without_destinations_is_refused() {
    let spec = VsSpec {
        has_tcp: false,
        has_tls: false,
        hosts: None,
        http: Some(vec![VsHttpRoute { redirect: None, matches: None, route: Some(vec![]) }]),
    };
    assert_eq!(
        virtual_service_to_httproute("ns", "svc", Some(&spec)).unwrap_err(),
        "No translatable spec.http routes found"
    );
}

#[test]
fn hostname_validity_and_service_names() {
    assert!(!is_valid_httproute_hostname("*"));
    assert!(is_valid_httproute_hostname("*.example.com"));
    assert!(!is_valid_httproute_hostname(""));
    assert!(!is_valid_httproute_hostname("bad_host"));
    assert_eq!(normalize_backend_service_name("reviews.bookinfo.svc"), "reviews");
    assert_eq!(normalize_backend_service_name("reviews"), "reviews");
}

#[test]
fn invalid_host_warning_quotes_host() {
    let spec = VsSpec {
        has_tcp: false,
        has_tls: false,
        hosts: Some(vec![Some("bad host".into())]),
        http: Some(vec![route_to("svc", 80)]),
    };
    let result = virtual_service_to_httproute("ns", "vs", Some(&spec)).unwrap();
    assert!(result
        .warnings
        .iter()
        .any(|w| w == "spec.hosts entry \"bad host\" is not a valid HTTPRoute hostname; omitted (use empty hostnames for wildcard)"));
}

#[test]
fn manifest_layout_is_exact() {
    let spec = VsSpec {
        has_tcp: false,
        has_tls: false,
        hosts: Some(vec![Some("reviews.example.com".into())]),
        http: Some(vec![
            VsHttpRoute {
                redirect: Some(VsRedirect { scheme: None, uri: Some("/new".into()), redirect_code: None }),
                matches: None,
                route: None,
            },
            VsHttpRoute {
                redirect: None,
                matches: Some(vec![Some(VsUriMatch { prefix: Some("/r".into()), exact: None, regex: None })]),
                route: Some(vec![dest("reviews", 9080)]),
            },
        ]),
    };
    let result = virtual_service_to_httproute("bookinfo", "reviews", Some(&spec)).unwrap();
    let expected = "apiVersion: gateway.networking.k8s.io/v1
kind: HTTPRoute
metadata:
  labels:
    ambientor.io/source-name: reviews
    ambientor.io/translated-from: VirtualService
  name: reviews-ambientor
  namespace: bookinfo
spec:
  hostnames:
  - reviews.example.com
  rules:
  - filters:
    - requestRedirect:
        path:
          replaceFullPath: /new
          type: ReplaceFullPath
        statusCode: 302
      type: RequestRedirect
  - backendRefs:
    - name: reviews
      port: 9080
    matches:
    - path:
        type: PathPrefix
        value: /r
";
    assert_eq!(manifest(&result.route), expected);
}
