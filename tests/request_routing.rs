use campus_lms::request_routing::{
    extract_from_tenant_header, extract_from_url_path, extract_tenant_from_request, is_valid_tenant_id,
    parse_tenant_from_hostname, route_request, HttpHeader, HttpRequest, RouteDecision,
};
use campus_lms::router::{ProvisionStep, RouterState};

fn request(url: &str, headers: &[(&str, &str)]) -> HttpRequest {
    HttpRequest {
        method: "GET".to_string(),
        url: url.to_string(),
        headers: headers.iter().map(|(n, v)| HttpHeader { name: n.to_string(), value: v.to_string() }).collect(),
        body: Vec::new(),
    }
}

#[test]
fn host_names_name_tenants() {
    assert_eq!(parse_tenant_from_hostname("harvard.lms.localhost:4943"), Some("harvard".to_string()));
    assert_eq!(parse_tenant_from_hostname("mit.lms.app"), Some("mit".to_string()));
    assert_eq!(parse_tenant_from_hostname("MIT.LMS.APP"), Some("mit".to_string()));
    assert_eq!(parse_tenant_from_hostname("lms.lms.app"), None);
    assert_eq!(parse_tenant_from_hostname("abc.ic0.app"), None);
    assert_eq!(parse_tenant_from_hostname("foo.example.com"), None);
}

#[test]
fn headers_and_paths_name_tenants() {
    let r = request("/", &[("Accept", "*/*"), ("X-Tenant-ID", "   "), ("x-tenant-id", "  yale ")]);
    assert_eq!(extract_from_tenant_header(&r), Some("yale".to_string()));
    assert_eq!(extract_from_url_path("/courses?tenant=oxford&x=1"), Some("oxford".to_string()));
    assert_eq!(extract_from_url_path("/?tenant=New%20York"), Some("New York".to_string()));
    assert_eq!(extract_from_url_path("//tenant//cam/page"), Some("cam".to_string()));
    assert_eq!(extract_from_url_path("/about"), None);
    let both = request("/tenant/cam", &[("Host", "mit.lms.app"), ("X-Tenant-ID", "yale")]);
    assert_eq!(extract_tenant_from_request(&both), Some("mit".to_string()));
    let header_only = request("/tenant/cam", &[("Host", "example.org"), ("X-Tenant-ID", "yale")]);
    assert_eq!(extract_tenant_from_request(&header_only), Some("yale".to_string()));
    assert!(is_valid_tenant_id("my-uni_1"));
    assert!(!is_valid_tenant_id("ab"));
    assert!(!is_valid_tenant_id("-abc"));
    assert!(!is_valid_tenant_id("abc!"));
}

#[test]
fn requests_are_resolved_through_the_routing_table() {
    let mut router = RouterState::new();
    router.configure_template("aaaaa-aa").unwrap();
    let req = router.register_university("oxford", "Oxford", "a", "r", "c").unwrap();
    if let ProvisionStep::Install(i) = req.instance_created(Ok("inst-1".to_string()), 1) {
        router.complete_registration(i, Ok(()), 1);
    }
    assert_eq!(
        route_request(&router, &request("/", &[("Host", "oxford.lms.app")])),
        RouteDecision::Forward { tenant: "oxford".to_string(), canister_id: "inst-1".to_string() }
    );
    assert_eq!(
        route_request(&router, &request("/?tenant=yale", &[])),
        RouteDecision::UnknownTenant("yale".to_string())
    );
    assert_eq!(route_request(&router, &request("/tenant/x", &[])), RouteDecision::BadTenant("x".to_string()));
    assert_eq!(route_request(&router, &request("/", &[])), RouteDecision::Landing);
}
