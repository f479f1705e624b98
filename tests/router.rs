use campus_lms::error::LMSError;
use campus_lms::inspection::{inspect_full_system, inspect_routing_table, inspect_tenant_registry};
use campus_lms::router::{clear_tenant_registry, first_label, migrate_tenant_data, ProvisionStep, RouterState, TENANT_CYCLES};

fn register(router: &mut RouterState, sub: &str, cid: &str, now: u64) -> ProvisionStep {
    let req = router.register_university(sub, "Uni", "admin-1", "router-id", "caller-1").unwrap();
    match req.instance_created(Ok(cid.to_string()), now) {
        ProvisionStep::Install(install) => router.complete_registration(install, Ok(()), now),
        other => other,
    }
}

fn configured() -> RouterState {
    let mut router = RouterState::new();
    router.configure_template("aaaaa-aa").unwrap();
    router
}

#[test]
fn registration_routes_subdomain_to_new_instance() {
    let mut router = configured();
    let req = router.register_university("oxford", "Oxford", "admin-1", "router-id", "caller-1").unwrap();
    assert_eq!(req.controllers, vec!["router-id", "caller-1", "admin-1"]);
    assert_eq!(req.cycles, TENANT_CYCLES);
    assert_eq!(req.template_canister_id, "aaaaa-aa");
    let install = match req.instance_created(Ok("inst-1".to_string()), 77) {
        ProvisionStep::Install(i) => i,
        other => panic!("unexpected {:?}", other),
    };
    assert_eq!(install.tenant_id, "tenant_77");
    let tenant = match router.complete_registration(install, Ok(()), 77) {
        ProvisionStep::Registered(t) => t,
        other => panic!("unexpected {:?}", other),
    };
    assert_eq!(tenant.id, "tenant_77");
    assert_eq!(tenant.subdomain, "oxford");
    assert_eq!(tenant.admin_ids, vec!["admin-1"]);
    assert_eq!(tenant.settings.max_students, 1000);
    assert_eq!(router.get_tenant_canister("oxford"), Ok("inst-1".to_string()));

    assert!(matches!(register(&mut router, "cambridge", "inst-2", 78), ProvisionStep::Registered(_)));
    assert_eq!(router.get_tenant_canister("cambridge"), Ok("inst-2".to_string()));
    assert_eq!(router.get_tenant_canister("oxford"), Ok("inst-1".to_string()));
    assert!(matches!(router.get_tenant_canister("yale"), Err(LMSError::NotFound(_))));
    assert_eq!(router.list_tenants().len(), 2);
}

#[test]
fn reregistering_a_subdomain_is_refused_before_any_instance() {
    let mut router = configured();
    register(&mut router, "oxford", "inst-1", 1);
    let again = router.register_university("oxford", "Other", "admin-2", "router-id", "caller-2");
    assert!(matches!(again, Err(LMSError::AlreadyExists(_))));
    let bad = router.register_university("-bad", "Bad", "admin-2", "router-id", "caller-2");
    assert!(matches!(bad, Err(LMSError::ValidationError(_))));
}

#[test]
fn failed_install_rolls_back() {
    let mut router = configured();
    let req = router.register_university("oxford", "Oxford", "admin-1", "router-id", "caller-1").unwrap();
    let install = match req.instance_created(Ok("inst-9".to_string()), 5) {
        ProvisionStep::Install(i) => i,
        other => panic!("unexpected {:?}", other),
    };
    let step = router.complete_registration(install, Err("out of cycles".to_string()), 5);
    assert_eq!(
        step,
        ProvisionStep::Rollback {
            canister_id: "inst-9".to_string(),
            error: LMSError::InternalError("Failed to install template: out of cycles".to_string()),
        }
    );
    assert!(router.list_tenants().is_empty());
    assert!(router.get_routing_table().is_empty());
}

#[test]
fn failed_creation_is_reported() {
    let router = configured();
    let req = router.register_university("oxford", "Oxford", "admin-1", "router-id", "caller-1").unwrap();
    let step = req.instance_created(Err("no cycles".to_string()), 5);
    assert_eq!(step, ProvisionStep::Failed(LMSError::InternalError("Failed to create canister: no cycles".to_string())));
}

#[test]
fn template_falls_back_to_a_deployed_tenant() {
    let router = RouterState::new();
    let r = router.register_university("oxford", "Oxford", "admin-1", "router-id", "caller-1");
    assert!(matches!(r, Err(LMSError::InitializationError(_))));
    let mut router = RouterState::new();
    router.register_tenant("t1", "Legacy", "legacy.example.org", "AAAAA-AA", "someone", 3).unwrap();
    let req = router.register_university("oxford", "Oxford", "admin-1", "router-id", "caller-1").unwrap();
    assert_eq!(req.template_canister_id, "aaaaa-aa");
}

#[test]
fn legacy_registration_checks_principal_text() {
    let mut router = RouterState::new();
    let t = router.register_tenant("t1", "Legacy", "legacy.example.org", "AAAAA-AA", "someone", 3).unwrap();
    assert_eq!(t.canister_id, "aaaaa-aa");
    assert_eq!(t.subdomain, "legacy.example.org");
    assert_eq!(router.get_tenant_canister("legacy"), Ok("aaaaa-aa".to_string()));
    let bad = router.register_tenant("t2", "Bad", "bad.example.org", "not a principal", "someone", 3);
    assert!(matches!(bad, Err(LMSError::ValidationError(_))));
    let dup = router.register_tenant("t1", "Dup", "dup.example.org", "2vxsx-fae", "someone", 3);
    assert!(matches!(dup, Err(LMSError::AlreadyExists(_))));
    assert!(router.configure_template("nope").is_err());
}

#[test]
fn removal_deletes_tenant_and_route() {
    let mut router = configured();
    register(&mut router, "oxford", "inst-1", 1);
    register(&mut router, "cambridge", "inst-2", 2);
    assert_eq!(router.remove_tenant("tenant_1"), Ok(()));
    assert!(router.get_tenant_canister("oxford").is_err());
    assert_eq!(router.get_tenant_canister("cambridge"), Ok("inst-2".to_string()));
    assert_eq!(
        router.remove_tenant("tenant_1"),
        Err(LMSError::NotFound("Tenant 'tenant_1' not found".to_string()))
    );
    assert!(inspect_full_system(&router).data_consistency);
}

#[test]
fn public_operations_keep_maps_consistent_and_corruption_is_detected() {
    let mut router = configured();
    assert!(inspect_full_system(&router).data_consistency);
    register(&mut router, "oxford", "inst-1", 1);
    register(&mut router, "cambridge", "inst-2", 2);
    router.register_tenant("t9", "Legacy", "legacy.org", "aaaaa-aa", "me", 3).unwrap();
    assert!(inspect_full_system(&router).data_consistency);
    router.remove_tenant("tenant_2").unwrap();
    assert!(inspect_full_system(&router).data_consistency);

    router.update_routing_entry("ghost", "inst-404").unwrap();
    let report = inspect_full_system(&router);
    assert!(!report.data_consistency);
    assert_eq!(report.orphaned_routes, vec![("ghost".to_string(), "inst-404".to_string())]);
    assert!(report.orphaned_tenants.is_empty());
    assert!(router.update_routing_entry("other", "inst-1").is_err());
}

#[test]
fn inspection_lists_both_maps() {
    let mut router = configured();
    register(&mut router, "oxford", "inst-1", 1);
    register(&mut router, "cambridge", "inst-2", 2);
    let reg = inspect_tenant_registry(&router);
    assert_eq!(reg.total_tenants, 2);
    assert_eq!(reg.tenant_ids, vec!["tenant_1", "tenant_2"]);
    assert_eq!(reg.active_tenants, vec!["tenant_1", "tenant_2"]);
    assert!(reg.inactive_tenants.is_empty());
    let rt = inspect_routing_table(&router);
    assert_eq!(rt.total_routes, 2);
    assert_eq!(rt.subdomains, vec!["cambridge", "oxford"]);
    assert_eq!(rt.canister_ids, vec!["inst-2", "inst-1"]);
    assert_eq!(router.get_routing_table()[0], ("cambridge".to_string(), "inst-2".to_string()));
    register(&mut router, "aachen", "inst-0", 0);
    let ids: Vec<String> = router.list_tenants().into_iter().map(|t| t.id).collect();
    assert_eq!(ids, vec!["tenant_0", "tenant_1", "tenant_2"]);

    clear_tenant_registry(&mut router).unwrap();
    let report = inspect_full_system(&router);
    assert!(!report.data_consistency);
    assert_eq!(report.orphaned_routes.len(), 3);
}

#[test]
fn clearing_and_migration_report_counts() {
    let mut router = configured();
    register(&mut router, "oxford", "inst-1", 1);
    register(&mut router, "cambridge", "inst-2", 2);
    assert_eq!(migrate_tenant_data(&mut router), Ok("Migrated 0 tenants to new format".to_string()));
    assert_eq!(router.clear_all_tenants(), "Cleared 2 tenants and 2 routing entries");
    assert!(router.list_tenants().is_empty());
    assert_eq!(router.clear_all_tenants(), "Cleared 0 tenants and 0 routing entries");
}

#[test]
fn migration_fills_missing_fields() {
    let mut router = RouterState::new();
    router.register_tenant("t1", "Old", "old.org", "aaaaa-aa", "me", 0).unwrap();
    assert_eq!(migrate_tenant_data(&mut router), Ok("Migrated 1 tenants to new format".to_string()));
    let t = &router.list_tenants()[0];
    assert_eq!(t.updated_at, t.created_at);
}

#[test]
fn first_label_of_domains() {
    assert_eq!(first_label("uni.example.org"), "uni");
    assert_eq!(first_label("plain"), "plain");
    assert_eq!(first_label(".lead"), "");
}

#[test]
fn router_state_is_restored_or_refused() {
    let mut router = configured();
    register(&mut router, "oxford", "inst-1", 1);
    let routes = router.route_entries().clone();
    let tenants = router.tenant_records().clone();
    let back = RouterState::restore(routes.clone(), tenants.clone(), router.template_id().clone()).unwrap();
    assert_eq!(back.get_tenant_canister("oxford"), Ok("inst-1".to_string()));
    let mut twice = routes.clone();
    twice.push(routes[0].clone());
    assert!(matches!(RouterState::restore(twice, tenants, None), Err(LMSError::ValidationError(_))));
}
