use campus_lms::user::UserRole;

#[test]
fn test_user_role_permissions() {
    assert!(UserRole::Instructor.can_create_course());
    assert!(UserRole::Admin.can_manage_users());
    assert!(UserRole::TenantAdmin.can_grade());
    assert!(!UserRole::Student.can_create_course());
    assert!(!UserRole::Student.can_manage_users());
}

#[test]
fn test_role_hierarchy() {
    assert!(UserRole::TenantAdmin.has_permission_level(&UserRole::Admin));
    assert!(UserRole::Admin.has_permission_level(&UserRole::Instructor));
    assert!(UserRole::Instructor.has_permission_level(&UserRole::Student));
    assert!(!UserRole::Student.has_permission_level(&UserRole::Instructor));
}

#[test]
fn test_role_permissions() {
    assert!(UserRole::TenantAdmin.can_manage_users());
    assert!(UserRole::Admin.can_manage_users());
    assert!(!UserRole::Instructor.can_manage_users());
    assert!(!UserRole::Student.can_manage_users());

    assert!(UserRole::Instructor.can_create_course());
    assert!(!UserRole::Student.can_create_course());
}

#[test]
fn every_role_reaches_its_own_level() {
    let roles = [UserRole::Student, UserRole::Instructor, UserRole::Admin, UserRole::TenantAdmin];
    for r in roles.iter() {
        assert!(r.has_permission_level(r));
    }
    assert_eq!(UserRole::Student.hierarchy_level(), 1);
    assert_eq!(UserRole::Instructor.hierarchy_level(), 2);
    assert_eq!(UserRole::Admin.hierarchy_level(), 3);
    assert_eq!(UserRole::TenantAdmin.hierarchy_level(), 4);
    assert!(!UserRole::Admin.has_permission_level(&UserRole::TenantAdmin));
}

#[test]
fn role_assignment_rules() {
    assert!(UserRole::TenantAdmin.can_assign_role(&UserRole::TenantAdmin));
    assert!(UserRole::Admin.can_assign_role(&UserRole::Admin));
    assert!(!UserRole::Admin.can_assign_role(&UserRole::TenantAdmin));
    assert!(!UserRole::Instructor.can_assign_role(&UserRole::Student));
    assert!(UserRole::Instructor.can_edit_course(true));
    assert!(!UserRole::Instructor.can_edit_course(false));
    assert!(UserRole::Admin.can_delete_course(false));
    assert!(!UserRole::Student.can_delete_course(true));
    assert!(UserRole::TenantAdmin.can_manage_tenant_settings());
    assert!(!UserRole::Admin.can_manage_tenant_settings());
    assert!(UserRole::Admin.can_export_data());
    assert!(UserRole::Instructor.can_view_all_users());
    assert!(!UserRole::Instructor.can_view_all_grades());
    assert_eq!(UserRole::TenantAdmin.as_str(), "TenantAdmin");
    assert_eq!(UserRole::default(), UserRole::Student);
}
