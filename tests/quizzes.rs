use campus_lms::error::LMSError;
use campus_lms::quiz::{Question, QuestionType};
use campus_lms::quizzes::{validate_description, validate_question, validate_questions, validate_quiz_data, validate_title};
use campus_lms::router::{auto_configure_template, RouterState};

fn question(text: &str, points: u32, kind: QuestionType) -> Question {
    Question { id: "q".to_string(), question_text: text.to_string(), question_type: kind, points }
}

#[test]
fn quiz_content_rules() {
    assert!(validate_title("Chapter 1 Quiz").is_ok());
    assert!(matches!(validate_title("   "), Err(LMSError::ValidationError(_))));
    assert!(validate_title(&"x".repeat(201)).is_err());
    assert!(validate_description(&"x".repeat(2000)).is_ok());
    assert!(validate_description(&"x".repeat(2001)).is_err());
    let mc = QuestionType::MultipleChoice { options: vec!["a".to_string(), "b".to_string()], correct_answer: 1 };
    assert!(validate_question(&question("Pick", 1, mc), 0).is_ok());
    let bad_index = QuestionType::MultipleChoice { options: vec!["a".to_string(), "b".to_string()], correct_answer: 2 };
    assert_eq!(
        validate_question(&question("Pick", 1, bad_index), 2),
        Err(LMSError::ValidationError("Question 3 correct answer index out of bounds".to_string()))
    );
    assert!(validate_question(&question("Essay", 5, QuestionType::Essay { max_words: Some(0) }), 0).is_err());
    assert!(validate_question(&question("True?", 0, QuestionType::TrueFalse { correct_answer: true }), 0).is_err());
    assert!(validate_questions(&Vec::new()).is_err());
    let ok = vec![question("True?", 1, QuestionType::TrueFalse { correct_answer: true })];
    assert!(validate_questions(&ok).is_ok());
    assert!(validate_quiz_data("T", "D", &ok, 1).is_ok());
    assert!(validate_quiz_data("T", "D", &ok, 0).is_err());
}

#[test]
fn template_and_router_stats() {
    assert!(matches!(auto_configure_template(), Err(LMSError::InitializationError(_))));
    let mut router = RouterState::new();
    assert!(!router.get_router_stats().has_wasm_module);
    router.configure_template("aaaaa-aa").unwrap();
    let st = router.get_router_stats();
    assert!(st.has_wasm_module);
    assert_eq!(st.tenant_count, 0);
    assert_eq!(st.routing_entries, 0);
}
