use campus_lms::error::LMSError;
use campus_lms::pre_provision::{PreProvisionStatus, PreProvisionedUser, UniversityImportRecord};
use campus_lms::user::UserRole;

const NOW: u64 = 1_700_000_000_000_000_000;

fn record(id: &str, email: &str, name: &str, role: &str, codes: &str) -> UniversityImportRecord {
    UniversityImportRecord {
        university_id: id.to_string(),
        email: email.to_string(),
        name: name.to_string(),
        role: role.to_string(),
        department: None,
        year_of_study: None,
        course_codes: codes.to_string(),
    }
}

#[test]
fn test_pre_provisioned_user_creation() {
    let record = UniversityImportRecord {
        university_id: "STU001".to_string(),
        email: "student@university.edu".to_string(),
        name: "John Doe".to_string(),
        role: "student".to_string(),
        department: Some("Computer Science".to_string()),
        year_of_study: Some(2),
        course_codes: "CS101,CS102,MATH201".to_string(),
    };

    let user = PreProvisionedUser::from_import_record(record, "tenant1", NOW).unwrap();

    assert_eq!(user.university_id, "STU001");
    assert_eq!(user.email, "student@university.edu");
    assert_eq!(user.role, UserRole::Student);
    assert_eq!(user.course_codes, vec!["CS101", "CS102", "MATH201"]);
    assert_eq!(user.status, PreProvisionStatus::Imported);
    assert!(!user.is_verified);
}

#[test]
fn test_verification_flow() {
    let record = UniversityImportRecord {
        university_id: "STU001".to_string(),
        email: "student@university.edu".to_string(),
        name: "John Doe".to_string(),
        role: "student".to_string(),
        department: None,
        year_of_study: None,
        course_codes: "".to_string(),
    };

    let mut user = PreProvisionedUser::from_import_record(record, "tenant1", NOW).unwrap();

    let code = user.generate_verification_code(NOW);
    assert_eq!(code.len(), 6);
    assert_eq!(user.status, PreProvisionStatus::PendingVerification);

    assert!(user.verify_code(&code, NOW).is_ok());
    assert!(user.is_verified);
    assert_eq!(user.status, PreProvisionStatus::Verified);

    assert!(user.link_ii_principal("test_principal".to_string()).is_ok());
    assert_eq!(user.status, PreProvisionStatus::Linked);
    assert!(user.is_ready_for_activation());
}

#[test]
fn import_trims_lowercases_and_parses() {
    let r = record("  FAC7 ", " Prof@Uni.EDU ", " Ada ", "Faculty", " CS1 , ,CS2,");
    let u = PreProvisionedUser::from_import_record(r, "t", 5).unwrap();
    assert_eq!(u.university_id, "FAC7");
    assert_eq!(u.email, "prof@uni.edu");
    assert_eq!(u.name, "Ada");
    assert_eq!(u.role, UserRole::Instructor);
    assert_eq!(u.course_codes, vec!["CS1", "CS2"]);
    assert_eq!(u.created_at, 5);
    let admin = PreProvisionedUser::from_import_record(record("A1", "a@b.c", "A", "tenant_admin", ""), "t", 5).unwrap();
    assert_eq!(admin.role, UserRole::TenantAdmin);
    assert!(admin.course_codes.is_empty());
}

#[test]
fn import_rejects_bad_rows() {
    let bad = [
        record("   ", "a@b.c", "A", "student", ""),
        record("X1", "no-at-sign", "A", "student", ""),
        record("X1", "a@b.c", "  ", "student", ""),
        record("X1", "a@b.c", "A", "janitor", ""),
    ];
    for r in bad.iter() {
        let out = PreProvisionedUser::from_import_record(r.clone(), "t", 5);
        assert!(matches!(out, Err(LMSError::ValidationError(_))));
    }
    let out = PreProvisionedUser::from_import_record(record("X1", "a@b.c", "A", "janitor", ""), "t", 5);
    assert_eq!(out, Err(LMSError::ValidationError("Invalid role: janitor".to_string())));
}

#[test]
fn wrong_code_keeps_status_and_expiry_expires() {
    let mut u = PreProvisionedUser::from_import_record(record("S1", "s@u.edu", "S", "student", ""), "t", NOW).unwrap();
    assert!(u.verify_code("123456", NOW).is_err());
    let code = u.generate_verification_code(NOW);
    assert_eq!(code, "170000");
    let wrong = u.verify_code("999999", NOW);
    assert!(matches!(wrong, Err(LMSError::ValidationError(_))));
    assert_eq!(u.status, PreProvisionStatus::PendingVerification);
    assert_eq!(u.verification_code, Some(code.clone()));
    let late = u.verify_code(&code, NOW + 3_600_000_000_001);
    assert!(matches!(late, Err(LMSError::ValidationError(_))));
    assert_eq!(u.status, PreProvisionStatus::Expired);
    let again = u.generate_verification_code(NOW + 4_000_000_000_000);
    assert_eq!(u.status, PreProvisionStatus::PendingVerification);
    assert!(u.verify_code(&again, NOW + 4_000_000_000_000).is_ok());
    assert_eq!(u.verification_code, None);
    assert_eq!(u.verification_expires, None);
}

#[test]
fn linking_needs_verification_and_happens_once() {
    let mut u = PreProvisionedUser::from_import_record(record("S1", "s@u.edu", "Sam", "student", ""), "t", NOW).unwrap();
    assert!(matches!(u.link_ii_principal("ii-first".to_string()), Err(LMSError::ValidationError(_))));
    assert!(u.to_user("t", NOW).is_err());
    let code = u.generate_verification_code(NOW);
    u.verify_code(&code, NOW).unwrap();
    assert!(u.link_ii_principal("ii-first".to_string()).is_ok());
    assert!(matches!(u.link_ii_principal("ii-second".to_string()), Err(LMSError::ValidationError(_))));
    assert_eq!(u.ii_principal, Some("ii-first".to_string()));
    let user = u.to_user("t", 9).unwrap();
    assert_eq!(user.id, "ii-first");
    assert_eq!(user.name, "Sam");
    assert_eq!(user.tenant_id, "t");
    assert_eq!(user.created_at, 9);
    assert!(user.is_active);
}

#[test]
fn import_trims_unicode_white_space() {
    let r = record("\u{3000}S9\t", "s9@u.edu", "\u{2003}Ada\u{0085}", "student", "\u{00A0}CS1\u{202F},  ");
    let u = PreProvisionedUser::from_import_record(r, "t", 5).unwrap();
    assert_eq!(u.university_id, "S9");
    assert_eq!(u.name, "Ada");
    assert_eq!(u.course_codes, vec!["CS1"]);
    let blank = record("\u{2028}\u{205F}", "s@u.edu", "A", "student", "");
    assert!(PreProvisionedUser::from_import_record(blank, "t", 5).is_err());
}
