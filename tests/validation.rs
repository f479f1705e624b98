use campus_lms::error::LMSError;
use campus_lms::utils::{generate_id, generate_random_string, is_valid_email, is_valid_subdomain};

#[test]
fn lib_test_subdomain_validation() {
    assert!(is_valid_subdomain("university"));
    assert!(is_valid_subdomain("my-university"));
    assert!(!is_valid_subdomain("-invalid"));
    assert!(!is_valid_subdomain(""));
}

#[test]
fn lib_new_test_subdomain_validation() {
    assert!(is_valid_subdomain("university"));
    assert!(is_valid_subdomain("my-university"));
    assert!(!is_valid_subdomain("-invalid"));
    assert!(!is_valid_subdomain(""));
}

#[test]
fn test_validation_utilities() {
    assert!(is_valid_email("test@example.com"));
    assert!(!is_valid_email("invalid-email"));

    assert!(is_valid_subdomain("university"));
    assert!(is_valid_subdomain("my-university"));
    assert!(!is_valid_subdomain("-invalid"));
    assert!(!is_valid_subdomain("invalid-"));
    assert!(!is_valid_subdomain(""));
}

#[test]
fn subdomain_rejects_other_characters() {
    assert!(!is_valid_subdomain("uni.edu"));
    assert!(!is_valid_subdomain("uni_edu"));
    assert!(!is_valid_subdomain("-"));
    assert!(is_valid_subdomain("a"));
    assert!(is_valid_subdomain("Uni2024"));
    assert!(is_valid_subdomain("université"));
}

#[test]
fn ids_and_codes_from_time() {
    assert_eq!(generate_id("grade", 1234567890), "grade_1234567890");
    assert_eq!(generate_id("tenant", 0), "tenant_0");
    assert_eq!(generate_random_string(6, 1234567890), "123456");
    assert_eq!(generate_random_string(6, 42), "420000");
    assert_eq!(generate_random_string(0, 42), "");
}

#[test]
fn error_helpers_build_messages() {
    let e = LMSError::unauthorized_access("create_user", "Admin");
    assert_eq!(e, LMSError::AccessDenied("Access denied: 'create_user' requires 'Admin' role or higher".to_string()));
    let e = LMSError::user_not_found("bob");
    assert_eq!(e, LMSError::NotFound("User 'bob' not found in tenant".to_string()));
    let e = LMSError::authentication_required("grade");
    assert_eq!(e.to_display_string(), "User not authenticated: Authentication required for action: 'grade'");
    assert_eq!(LMSError::NotFound("User not found".to_string()).to_display_string(), "Not found: User not found");
}
