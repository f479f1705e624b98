use campus_lms::courses::{
    add_instructor_to_course, create_course, enroll_student, get_course, get_course_instructors,
    get_instructor_courses, get_student_courses, list_courses, remove_instructor_from_course, update_course,
};
use campus_lms::grade::GradeType;
use campus_lms::grades::record_grade;
use campus_lms::restore::{grade_number, restore_tenant};
use campus_lms::tenant::TenantData;
use campus_lms::error::LMSError;
use campus_lms::rbac::{
    can_access_user_data, can_assign_role, can_modify_user, can_perform_action, get_caller_role,
    get_caller_user, has_role, is_admin, log_rbac_action, require_admin, require_authenticated,
    require_student, require_teacher,
};
use campus_lms::tenant::{get_tenant_id, TenantState};
use campus_lms::user::UserRole;
use campus_lms::users::{
    deactivate_user, get_public_user_names, get_user, list_users, reactivate_user, register_user,
    update_user, update_user_role,
};

fn who(s: &str) -> Option<String> {
    Some(s.to_string())
}

fn setup() -> TenantState {
    let mut s = TenantState::new();
    s.initialize("tenant1".to_string(), Some("router-admin".to_string()), 1).unwrap();
    let root = who("router-admin");
    register_user(&mut s, &root, "boss", "Bea", "bea@u.edu", UserRole::TenantAdmin, "tenant1", 2).unwrap();
    register_user(&mut s, &root, "admin", "Ann", "ann@u.edu", UserRole::Admin, "tenant1", 2).unwrap();
    register_user(&mut s, &root, "teacher", "Tom", "tom@u.edu", UserRole::Instructor, "tenant1", 2).unwrap();
    register_user(&mut s, &root, "student", "Sue", "sue@u.edu", UserRole::Student, "tenant1", 2).unwrap();
    create_course(&mut s, &who("teacher"), "CS101", "Intro", "Basics", 3).unwrap();
    s
}

#[test]
fn second_initialisation_is_refused() {
    let mut s = TenantState::new();
    assert!(matches!(get_tenant_id(&s), Err(LMSError::InitializationError(_))));
    s.initialize("t".to_string(), Some("r".to_string()), 1).unwrap();
    assert_eq!(get_tenant_id(&s), Ok("t".to_string()));
    assert!(matches!(s.initialize("u".to_string(), Some("r".to_string()), 2), Err(LMSError::InitializationError(_))));
}

#[test]
fn caller_resolution() {
    let mut s = setup();
    assert!(matches!(get_caller_user(&s, &None), Err(LMSError::UserNotAuthenticated(_))));
    assert!(matches!(get_caller_user(&s, &who("stranger")), Err(LMSError::UserNotAuthenticated(_))));
    assert_eq!(get_caller_user(&s, &who("student")).unwrap().name, "Sue");
    assert_eq!(get_caller_role(&s, &who("teacher")), Ok(UserRole::Instructor));
    deactivate_user(&mut s, &who("admin"), "student", 4).unwrap();
    assert!(matches!(get_caller_user(&s, &who("student")), Err(LMSError::Unauthorized(_))));
    reactivate_user(&mut s, &who("admin"), "student", 5).unwrap();
    assert!(require_student(&s, &who("student")).is_ok());
}

#[test]
fn bootstrap_admin_and_guards() {
    let s = setup();
    assert!(is_admin(&s, &who("router-admin")));
    assert!(is_admin(&s, &who("admin")));
    assert!(!is_admin(&s, &who("teacher")));
    assert!(!is_admin(&s, &None));
    assert!(has_role(&s, &who("teacher"), &UserRole::Student));
    assert!(!has_role(&s, &who("student"), &UserRole::Instructor));
    assert!(require_admin(&s, &who("boss")).is_ok());
    assert!(matches!(require_admin(&s, &who("teacher")), Err(LMSError::AccessDenied(_))));
    assert!(require_teacher(&s, &who("teacher")).is_ok());
    assert!(matches!(require_teacher(&s, &who("student")), Err(LMSError::AccessDenied(_))));
    assert!(require_authenticated(&s, &who("student")).is_ok());
    assert!(require_authenticated(&s, &who("router-admin")).is_ok());
}

#[test]
fn actions_by_level() {
    let s = setup();
    assert_eq!(can_perform_action(&s, &who("router-admin"), "anything"), Ok(()));
    assert_eq!(can_perform_action(&s, &who("admin"), "create_user"), Ok(()));
    assert_eq!(
        can_perform_action(&s, &who("teacher"), "create_user"),
        Err(LMSError::AccessDenied("Access denied: 'create_user' requires 'Admin' role or higher".to_string()))
    );
    assert_eq!(can_perform_action(&s, &who("teacher"), "assign_grade"), Ok(()));
    assert!(matches!(can_perform_action(&s, &who("student"), "view_all_users"), Err(LMSError::AccessDenied(_))));
    assert!(matches!(can_perform_action(&s, &who("admin"), "manage_tenant_settings"), Err(LMSError::AccessDenied(_))));
    assert_eq!(can_perform_action(&s, &who("boss"), "manage_tenant_settings"), Ok(()));
    assert!(matches!(can_perform_action(&s, &who("boss"), "fly"), Err(LMSError::ValidationError(_))));
}

#[test]
fn fine_grained_user_checks() {
    let s = setup();
    assert_eq!(can_access_user_data(&s, &who("admin"), "boss"), Ok(()));
    assert_eq!(can_access_user_data(&s, &who("teacher"), "student"), Ok(()));
    assert_eq!(can_access_user_data(&s, &who("teacher"), "teacher"), Ok(()));
    assert!(matches!(can_access_user_data(&s, &who("teacher"), "admin"), Err(LMSError::AccessDenied(_))));
    assert!(matches!(can_access_user_data(&s, &who("teacher"), "nobody"), Err(LMSError::NotFound(_))));
    assert!(matches!(can_access_user_data(&s, &who("student"), "teacher"), Err(LMSError::AccessDenied(_))));
    assert_eq!(can_modify_user(&s, &who("boss"), "admin"), Ok(()));
    assert!(matches!(can_modify_user(&s, &who("admin"), "boss"), Err(LMSError::InsufficientPermissions(_))));
    assert!(matches!(can_modify_user(&s, &who("teacher"), "student"), Err(LMSError::AccessDenied(_))));
    assert_eq!(can_assign_role(&s, &who("admin"), &UserRole::Admin), Ok(()));
    assert_eq!(
        can_assign_role(&s, &who("admin"), &UserRole::TenantAdmin),
        Err(LMSError::InvalidRoleAssignment("Cannot assign role 'TenantAdmin' with current permissions".to_string()))
    );
    assert_eq!(
        log_rbac_action("delete_grade", true, "admin", Some("g1")),
        "RBAC: action='delete_grade', caller='admin', target_user='g1', success=true"
    );
}

#[test]
fn user_management() {
    let mut s = setup();
    assert!(matches!(
        register_user(&mut s, &who("admin"), "x", "X", "bad-email", UserRole::Student, "tenant1", 9),
        Err(LMSError::ValidationError(_))
    ));
    assert!(matches!(
        register_user(&mut s, &who("admin"), "student", "X", "x@u.edu", UserRole::Student, "tenant1", 9),
        Err(LMSError::AlreadyExists(_))
    ));
    assert!(matches!(
        register_user(&mut s, &who("admin"), "y", "Y", "y@u.edu", UserRole::TenantAdmin, "tenant1", 9),
        Err(LMSError::InvalidRoleAssignment(_))
    ));
    assert!(matches!(
        register_user(&mut s, &who("admin"), "y", "Y", "y@u.edu", UserRole::Student, "other", 9),
        Err(LMSError::ValidationError(_))
    ));
    assert_eq!(list_users(&s, &who("teacher")).len(), 5);
    assert!(list_users(&s, &who("student")).is_empty());
    assert_eq!(get_user(&s, &who("student"), "student").unwrap().email, "sue@u.edu");
    let u = update_user(&mut s, &who("admin"), "student", Some("Susan".to_string()), None, None, 10).unwrap();
    assert_eq!(u.name, "Susan");
    assert_eq!(u.updated_at, 10);
    assert!(matches!(
        update_user(&mut s, &who("admin"), "student", None, Some("nope".to_string()), None, 11),
        Err(LMSError::ValidationError(_))
    ));
    let u = update_user_role(&mut s, &who("boss"), "student", UserRole::Instructor, 12).unwrap();
    assert_eq!(u.role, UserRole::Instructor);
    assert!(update_user_role(&mut s, &who("admin"), "boss", UserRole::Student, 12).is_err());
    let names = get_public_user_names(&s, &who("student"), &vec!["teacher".to_string(), "ghost".to_string(), "admin".to_string()]);
    assert_eq!(names, vec![("teacher".to_string(), "Tom".to_string()), ("admin".to_string(), "Ann".to_string())]);
    assert!(get_public_user_names(&s, &None, &vec!["teacher".to_string()]).is_empty());
}

#[test]
fn course_management() {
    let mut s = setup();
    assert!(matches!(create_course(&mut s, &who("student"), "X1", "T", "D", 4), Err(LMSError::AccessDenied(_))));
    assert!(matches!(create_course(&mut s, &who("teacher"), "CS101", "T", "D", 4), Err(LMSError::AlreadyExists(_))));
    assert_eq!(list_courses(&s, &who("student")).len(), 1);
    assert!(list_courses(&s, &None).is_empty());
    assert_eq!(get_course(&s, &who("student"), "CS101").unwrap().instructor_ids, vec!["teacher"]);
    assert_eq!(enroll_student(&mut s, &who("teacher"), "CS101", "student", 5), Ok(()));
    assert!(matches!(enroll_student(&mut s, &who("teacher"), "CS101", "student", 5), Err(LMSError::AlreadyExists(_))));
    assert_eq!(get_student_courses(&s, &who("student"), "student").len(), 1);
    assert_eq!(get_instructor_courses(&s, &who("teacher"), "teacher").len(), 1);
    let c = update_course(&mut s, &who("teacher"), "CS101", Some("Intro to CS".to_string()), None, Some(true), 6).unwrap();
    assert_eq!(c.title, "Intro to CS");
    assert!(c.is_published);
    register_user(&mut s, &who("admin"), "t2", "Tia", "tia@u.edu", UserRole::Instructor, "tenant1", 6).unwrap();
    assert!(matches!(update_course(&mut s, &who("t2"), "CS101", None, None, None, 7), Err(LMSError::Unauthorized(_))));
    assert!(matches!(remove_instructor_from_course(&mut s, &who("admin"), "CS101", "teacher", 7), Err(LMSError::ValidationError(_))));
    add_instructor_to_course(&mut s, &who("admin"), "CS101", "t2", 7).unwrap();
    assert_eq!(get_course_instructors(&s, &who("student"), "CS101"), Ok(vec!["teacher".to_string(), "t2".to_string()]));
    let c = remove_instructor_from_course(&mut s, &who("admin"), "CS101", "teacher", 8).unwrap();
    assert_eq!(c.instructor_ids, vec!["t2"]);
    assert!(matches!(get_course(&s, &who("student"), "NOPE"), Err(LMSError::NotFound(_))));
}

#[test]
fn initialisation_creates_the_first_admin() {
    let s = setup();
    let admin = get_caller_user(&s, &who("router-admin")).unwrap();
    assert_eq!(admin.role, UserRole::TenantAdmin);
    assert_eq!(admin.email, "admin@tenant1.edu");
    assert_eq!(admin.name, "TenantAdmin");
    assert!(require_admin(&s, &who("router-admin")).is_ok());
    let mut bare = TenantState::new();
    bare.initialize("t".to_string(), None, 1).unwrap();
    assert!(list_users(&bare, &who("anyone")).is_empty());
}

#[test]
fn router_admin_has_roles_up_to_admin() {
    let mut s = TenantState::new();
    register_user(&mut s, &None, "x", "X", "x@u.edu", UserRole::Student, "t", 1).unwrap_err();
    s.initialize("t".to_string(), Some("root".to_string()), 1).unwrap();
    assert!(has_role(&s, &who("root"), &UserRole::Student));
    assert!(has_role(&s, &who("root"), &UserRole::Admin));
    assert!(has_role(&s, &who("root"), &UserRole::TenantAdmin));
}

#[test]
fn router_admin_is_admin_equivalent_without_a_record() {
    let mut s = TenantState::new();
    s.initialize("t".to_string(), Some("root".to_string()), 1).unwrap();
    register_user(&mut s, &who("root"), "boss", "Bea", "bea@u.edu", UserRole::TenantAdmin, "t", 2).unwrap();
    register_user(&mut s, &who("root"), "teacher", "Tom", "tom@u.edu", UserRole::Instructor, "t", 2).unwrap();
    // a tenant whose admin identity has no user record of its own
    let data = s.tenant_data().clone().map(|d| TenantData { admin_principal: Some("other-root".to_string()), ..d });
    let users: Vec<_> = s.user_records().iter().filter(|u| u.id != "root").cloned().collect();
    let mut s = restore_tenant(data, users, vec![], vec![], vec![], vec![], 0).unwrap();
    let root = who("other-root");
    assert!(get_caller_user(&s, &root).is_err());
    assert!(update_user(&mut s, &root, "teacher", Some("Thomas".to_string()), None, None, 3).is_ok());
    assert!(update_user_role(&mut s, &root, "boss", UserRole::Admin, 3).is_ok());
    assert!(update_user(&mut s, &root, "ghost", None, None, None, 3).is_err());
    create_course(&mut s, &root, "C1", "T", "D", 4).unwrap();
    assert!(update_course(&mut s, &root, "C1", Some("New".to_string()), None, None, 5).is_ok());
    assert!(add_instructor_to_course(&mut s, &root, "C1", "teacher", 6).is_ok());
    assert!(get_user(&s, &root, "teacher").is_ok());
}

#[test]
fn saved_state_is_restored_or_refused() {
    let mut s = setup();
    enroll_student(&mut s, &who("teacher"), "CS101", "student", 4).unwrap();
    let g = record_grade(&mut s, &who("teacher"), "student", "CS101", 9000, 10000, GradeType::Quiz, None, 77).unwrap();
    assert_eq!(grade_number(&g.id), Some((77, 0)));
    assert_eq!(grade_number(&"grade_77_x".to_string()), None);
    let restored = restore_tenant(
        s.tenant_data().clone(),
        s.user_records().clone(),
        s.course_records().clone(),
        s.grade_records().clone(),
        s.quiz_records().clone(),
        s.pre_user_records().clone(),
        s.next_grade_number(),
    )
    .unwrap();
    assert_eq!(restored.user_records().len(), 5);
    assert_eq!(restored.grade_records().len(), 1);
    let clash = restore_tenant(s.tenant_data().clone(), s.user_records().clone(), vec![], s.grade_records().clone(), vec![], vec![], 0);
    assert!(matches!(clash, Err(LMSError::ValidationError(_))));
    let mut twice = s.user_records().clone();
    twice.push(twice[0].clone());
    assert!(restore_tenant(None, twice, vec![], vec![], vec![], vec![], 0).is_err());
}
