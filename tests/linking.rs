use campus_lms::courses::{create_course, get_course};
use campus_lms::error::LMSError;
use campus_lms::linking::{
    check_university_id, delete_pre_provisioned_user, get_import_statistics, get_linking_status, get_pre_provisioned_user,
    import_single_record, import_university_records, import_user_simple, link_internet_identity, list_pre_provisioned_users, request_email_verification,
    verify_email,
};
use campus_lms::pre_provision::{PreProvisionStatus, UniversityImportRecord};
use campus_lms::tenant::TenantState;
use campus_lms::user::UserRole;
use campus_lms::users::{get_user, register_user};

const NOW: u64 = 1_700_000_000_000_000_000;

fn who(s: &str) -> Option<String> {
    Some(s.to_string())
}

fn setup() -> TenantState {
    let mut s = TenantState::new();
    s.initialize("tenant1".to_string(), Some("router-admin".to_string()), 1).unwrap();
    let root = who("router-admin");
    register_user(&mut s, &root, "admin", "Ann", "ann@u.edu", UserRole::Admin, "tenant1", 2).unwrap();
    register_user(&mut s, &root, "teacher", "Tom", "tom@u.edu", UserRole::Instructor, "tenant1", 2).unwrap();
    create_course(&mut s, &who("teacher"), "CS101", "Intro", "Basics", 3).unwrap();
    let rec = UniversityImportRecord {
        university_id: "STU001".to_string(),
        email: "Student@University.edu".to_string(),
        name: "John Doe".to_string(),
        role: "student".to_string(),
        department: None,
        year_of_study: Some(1),
        course_codes: "CS101,NOPE".to_string(),
    };
    import_single_record(&mut s, &who("admin"), rec, NOW).unwrap();
    s
}

#[test]
fn imported_record_lifecycle() {
    let mut s = setup();
    assert_eq!(get_linking_status(&s, "STU001"), Ok((PreProvisionStatus::Imported, false)));
    assert!(matches!(
        link_internet_identity(&mut s, &who("ii-john"), "STU001", "student@university.edu", NOW),
        Err(LMSError::ValidationError(_))
    ));
    assert!(matches!(
        request_email_verification(&mut s, "STU001", "other@university.edu", NOW),
        Err(LMSError::ValidationError(_))
    ));
    let code = request_email_verification(&mut s, "STU001", "STUDENT@university.edu", NOW).unwrap();
    assert_eq!(code, "170000");
    assert_eq!(get_linking_status(&s, "STU001"), Ok((PreProvisionStatus::PendingVerification, false)));
    assert!(matches!(
        verify_email(&mut s, "STU001", "student@university.edu", "000000", NOW),
        Err(LMSError::ValidationError(_))
    ));
    assert_eq!(get_linking_status(&s, "STU001"), Ok((PreProvisionStatus::PendingVerification, false)));
    assert!(verify_email(&mut s, "STU001", "student@university.edu", &code, NOW).is_ok());
    assert_eq!(get_linking_status(&s, "STU001"), Ok((PreProvisionStatus::Verified, false)));
    assert_eq!(get_pre_provisioned_user(&s, &who("admin"), "STU001").unwrap().verification_code, None);

    let user = link_internet_identity(&mut s, &who("ii-john"), "STU001", "student@university.edu", NOW).unwrap();
    assert_eq!(user.id, "ii-john");
    assert_eq!(user.role, UserRole::Student);
    assert_eq!(user.tenant_id, "tenant1");
    assert_eq!(get_linking_status(&s, "STU001"), Ok((PreProvisionStatus::Linked, true)));
    assert_eq!(get_user(&s, &who("ii-john"), "ii-john").unwrap().name, "John Doe");
    assert_eq!(get_course(&s, &who("ii-john"), "CS101").unwrap().enrolled_students, vec!["ii-john"]);

    assert!(matches!(
        link_internet_identity(&mut s, &who("ii-other"), "STU001", "student@university.edu", NOW),
        Err(LMSError::ValidationError(_))
    ));
    assert!(matches!(
        link_internet_identity(&mut s, &who("ii-john"), "STU001", "student@university.edu", NOW),
        Err(LMSError::ValidationError(_))
    ));
    assert!(matches!(check_university_id(&s, "STU001"), Err(LMSError::ValidationError(_))));
}

#[test]
fn expired_codes_and_admin_operations() {
    let mut s = setup();
    let code = request_email_verification(&mut s, "STU001", "student@university.edu", NOW).unwrap();
    assert!(verify_email(&mut s, "STU001", "student@university.edu", &code, NOW + 3_600_000_000_001).is_err());
    assert_eq!(get_linking_status(&s, "STU001"), Ok((PreProvisionStatus::Expired, false)));
    assert!(matches!(verify_email(&mut s, "NOPE", "a@b.c", "1", NOW), Err(LMSError::NotFound(_))));
    assert_eq!(check_university_id(&s, "STU001"), Ok("University ID found: John Doe".to_string()));
    assert_eq!(list_pre_provisioned_users(&s, &who("admin")).unwrap().len(), 1);
    assert!(list_pre_provisioned_users(&s, &who("teacher")).is_err());
    assert!(link_internet_identity(&mut s, &None, "STU001", "student@university.edu", NOW).is_err());
    assert!(delete_pre_provisioned_user(&mut s, &who("teacher"), "STU001").is_err());
    assert!(delete_pre_provisioned_user(&mut s, &who("admin"), "STU001").is_ok());
    assert!(matches!(get_linking_status(&s, "STU001"), Err(LMSError::NotFound(_))));
}

fn row(id: &str, email: &str, role: &str) -> UniversityImportRecord {
    UniversityImportRecord {
        university_id: id.to_string(),
        email: email.to_string(),
        name: "Someone".to_string(),
        role: role.to_string(),
        department: None,
        year_of_study: None,
        course_codes: String::new(),
    }
}

#[test]
fn bulk_import_reports_and_skips_bad_rows() {
    let mut s = setup();
    let rows = vec![
        row("", "a@u.edu", "student"),
        row("", "b@u.edu", "Teacher"),
        row("STU001", "c@u.edu", "student"),
        row("X9", "student@university.edu", "student"),
        row("X10", "bad-email", "student"),
    ];
    let st = import_university_records(&mut s, &who("admin"), &rows, NOW).unwrap();
    assert_eq!(st.total_imported, 2);
    assert_eq!(st.students_imported, 1);
    assert_eq!(st.staff_imported, 1);
    assert_eq!(
        st.errors,
        vec![
            "Duplicate university ID: STU001".to_string(),
            "Email already exists: student@university.edu".to_string(),
            "Failed to import X10: Validation error: Valid email is required".to_string(),
        ]
    );
    assert!(check_university_id(&s, "tenant1_STU001").is_ok());
    assert!(check_university_id(&s, "tenant1_FAC002").is_ok());
    assert!(import_university_records(&mut s, &who("teacher"), &rows, NOW).is_err());
    let stats = get_import_statistics(&s, &who("admin")).unwrap();
    assert_eq!(
        stats,
        vec![
            ("total".to_string(), 3),
            ("students".to_string(), 2),
            ("staff".to_string(), 1),
            ("verified".to_string(), 0),
            ("linked".to_string(), 0),
        ]
    );
}

#[test]
fn single_import_generates_missing_ids() {
    let mut s = setup();
    let msg = import_user_simple(&mut s, &who("admin"), "d@u.edu".to_string(), "Dee".to_string(), "admin".to_string(), None, None, String::new(), 123_456).unwrap();
    assert_eq!(msg, "Successfully imported user: Dee (ID: tenant1_ADM3456)");
    assert!(matches!(
        import_single_record(&mut s, &who("admin"), row("STU001", "z@u.edu", "student"), NOW),
        Err(LMSError::ValidationError(_))
    ));
}
