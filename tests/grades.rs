use campus_lms::courses::{create_course, enroll_student};
use campus_lms::error::LMSError;
use campus_lms::grade::GradeType;
use campus_lms::grades::{
    bulk_import_grades, check_duplicate_grade, delete_grade, get_course_grades, get_grade,
    get_student_grades, record_grade, record_quiz_grade, update_grade, validate_score_range,
    BulkGradeEntry,
};
use campus_lms::quiz::{Question, QuestionType, Quiz};
use campus_lms::quizzes::create_quiz;
use campus_lms::statistics::{
    calculate_grade_statistics, calculate_letter_grade_distribution, get_course_grades_with_stats, GradeStatistics,
    calculate_course_average, calculate_letter_grade, calculate_weighted_course_average, GradeWeights,
};
use campus_lms::tenant::TenantState;
use campus_lms::user::UserRole;
use campus_lms::users::register_user;

fn who(s: &str) -> Option<String> {
    Some(s.to_string())
}

fn setup() -> TenantState {
    let mut s = TenantState::new();
    s.initialize("tenant1".to_string(), Some("router-admin".to_string()), 1).unwrap();
    let root = who("router-admin");
    register_user(&mut s, &root, "admin", "Ann", "ann@u.edu", UserRole::Admin, "tenant1", 2).unwrap();
    register_user(&mut s, &root, "teacher", "Tom", "tom@u.edu", UserRole::Instructor, "tenant1", 2).unwrap();
    register_user(&mut s, &root, "other", "Oz", "oz@u.edu", UserRole::Instructor, "tenant1", 2).unwrap();
    register_user(&mut s, &root, "student", "Sue", "sue@u.edu", UserRole::Student, "tenant1", 2).unwrap();
    create_course(&mut s, &who("teacher"), "CS101", "Intro", "Basics", 3).unwrap();
    enroll_student(&mut s, &who("teacher"), "CS101", "student", 3).unwrap();
    s
}

fn quiz(id: &str, course: &str) -> Quiz {
    Quiz {
        id: id.to_string(),
        course_id: course.to_string(),
        title: "Q".to_string(),
        description: "D".to_string(),
        questions: vec![Question {
            id: "q1".to_string(),
            question_text: "What is Rust?".to_string(),
            question_type: QuestionType::MultipleChoice {
                options: vec!["A language".to_string(), "A framework".to_string()],
                correct_answer: 0,
            },
            points: 10,
        }],
        time_limit_minutes: Some(30),
        max_attempts: 3,
        created_at: 1,
        updated_at: 1,
    }
}

#[test]
fn score_bound_allows_a_tenth_of_extra_credit() {
    let mut s = setup();
    let t = who("teacher");
    assert!(record_grade(&mut s, &t, "student", "CS101", 10900, 10000, GradeType::Assignment, None, 10).is_ok());
    assert!(matches!(
        record_grade(&mut s, &t, "student", "CS101", 11100, 10000, GradeType::Assignment, None, 11),
        Err(LMSError::ValidationError(_))
    ));
    assert!(matches!(
        record_grade(&mut s, &t, "student", "CS101", 0, 0, GradeType::Assignment, None, 12),
        Err(LMSError::ValidationError(_))
    ));
    assert_eq!(validate_score_range(11000, 10000), Ok(()));
    assert!(validate_score_range(11001, 10000).is_err());
    assert!(validate_score_range(5, 0).is_err());
}

#[test]
fn only_one_final_per_student_and_course() {
    let mut s = setup();
    let t = who("teacher");
    assert!(record_grade(&mut s, &t, "student", "CS101", 9000, 10000, GradeType::Final, None, 10).is_ok());
    assert!(matches!(
        record_grade(&mut s, &t, "student", "CS101", 9500, 10000, GradeType::Final, None, 11),
        Err(LMSError::ValidationError(_))
    ));
    assert!(record_grade(&mut s, &t, "student", "CS101", 7000, 10000, GradeType::Assignment, None, 12).is_ok());
    assert!(record_grade(&mut s, &t, "student", "CS101", 8000, 10000, GradeType::Assignment, None, 13).is_ok());
    assert!(matches!(check_duplicate_grade(&s, "student", "CS101", &GradeType::Final), Err(LMSError::ValidationError(_))));
    assert_eq!(check_duplicate_grade(&s, "student", "CS101", &GradeType::Midterm), Ok(()));
    assert_eq!(get_course_grades(&s, "CS101").len(), 3);
}

#[test]
fn grading_permissions_and_inputs() {
    let mut s = setup();
    assert!(matches!(
        record_grade(&mut s, &who("other"), "student", "CS101", 5000, 10000, GradeType::Quiz, None, 10),
        Err(LMSError::Unauthorized(_))
    ));
    assert!(matches!(
        record_grade(&mut s, &who("other"), "student", "NOPE", 5000, 10000, GradeType::Quiz, None, 10),
        Err(LMSError::NotFound(_))
    ));
    assert!(matches!(
        record_grade(&mut s, &who("teacher"), "ghost", "CS101", 5000, 10000, GradeType::Quiz, None, 10),
        Err(LMSError::NotFound(_))
    ));
    let g = record_grade(&mut s, &who("admin"), "student", "CS101", 5000, 10000, GradeType::Quiz, Some("ok".to_string()), 10).unwrap();
    assert_eq!(g.id, "grade_10_0");
    assert_eq!(g.graded_by, "admin");
    assert_eq!(g.feedback, Some("ok".to_string()));
}

#[test]
fn quiz_grades_must_belong_to_the_course() {
    let mut s = setup();
    create_course(&mut s, &who("teacher"), "CS102", "Next", "More", 4).unwrap();
    create_quiz(&mut s, &who("teacher"), quiz("quiz1", "CS101")).unwrap();
    assert!(create_quiz(&mut s, &who("teacher"), quiz("quiz1", "CS101")).is_err());
    let g = record_quiz_grade(&mut s, &who("teacher"), "student", "CS101", "quiz1", 8000, 10000, None, 20).unwrap();
    assert_eq!(g.quiz_id, Some("quiz1".to_string()));
    assert_eq!(g.grade_type, GradeType::Quiz);
    assert!(matches!(
        record_quiz_grade(&mut s, &who("teacher"), "student", "CS102", "quiz1", 8000, 10000, None, 21),
        Err(LMSError::ValidationError(_))
    ));
    assert!(matches!(
        record_quiz_grade(&mut s, &who("teacher"), "student", "CS101", "nope", 8000, 10000, None, 21),
        Err(LMSError::NotFound(_))
    ));
}

#[test]
fn update_and_delete() {
    let mut s = setup();
    let g = record_grade(&mut s, &who("teacher"), "student", "CS101", 5000, 10000, GradeType::Quiz, None, 10).unwrap();
    let u = update_grade(&mut s, &who("teacher"), &g.id, Some(6000), Some("better".to_string()), Some("regrade".to_string()), 20).unwrap();
    assert_eq!(u.score, 6000);
    assert_eq!(u.feedback, Some("better".to_string()));
    assert_eq!(u.graded_at, 20);
    assert!(matches!(update_grade(&mut s, &who("teacher"), &g.id, Some(20000), None, None, 21), Err(LMSError::ValidationError(_))));
    assert!(matches!(update_grade(&mut s, &who("other"), &g.id, Some(1), None, None, 21), Err(LMSError::Unauthorized(_))));
    assert!(matches!(update_grade(&mut s, &who("teacher"), "missing", Some(1), None, None, 21), Err(LMSError::NotFound(_))));
    assert!(matches!(delete_grade(&mut s, &who("teacher"), &g.id, "typo"), Err(LMSError::AccessDenied(_))));
    assert!(matches!(delete_grade(&mut s, &who("admin"), &g.id, ""), Err(LMSError::ValidationError(_))));
    assert_eq!(delete_grade(&mut s, &who("admin"), &g.id, "typo"), Ok(()));
    assert!(matches!(get_grade(&s, &g.id), Err(LMSError::NotFound(_))));
}

#[test]
fn weighted_average_divides_by_weights_used() {
    let mut s = setup();
    let t = who("teacher");
    record_grade(&mut s, &t, "student", "CS101", 7000, 10000, GradeType::Quiz, None, 10).unwrap();
    record_grade(&mut s, &t, "student", "CS101", 9000, 10000, GradeType::Quiz, None, 11).unwrap();
    record_grade(&mut s, &t, "student", "CS101", 9000, 10000, GradeType::Assignment, None, 12).unwrap();
    let r = calculate_weighted_course_average(&s, "student", "CS101", None).unwrap();
    assert_eq!(r.final_average, 8600);
    assert_eq!(r.total_weight_used, 5000);
    assert_eq!(r.letter_grade, "B");
    assert_eq!(r.grade_breakdown.len(), 2);
    assert_eq!(calculate_course_average(&s, "student", "CS101"), Some(8333));
    assert!(matches!(calculate_weighted_course_average(&s, "teacher", "CS101", None), Err(LMSError::NotFound(_))));
    assert_eq!(calculate_course_average(&s, "teacher", "CS101"), None);
    let w = GradeWeights::new(10000, 0, 0, 0, 0, 0);
    assert_eq!(w.validate(), Ok(()));
    assert!(GradeWeights::new(5000, 0, 0, 0, 0, 0).validate().is_err());
    assert_eq!(calculate_weighted_course_average(&s, "student", "CS101", Some(w)).unwrap().final_average, 8000);
    assert_eq!(GradeWeights::default().get_weight(&GradeType::Lab), 3000);
    assert_eq!(GradeWeights::default().get_weight(&GradeType::ExtraCredit), 0);
}

#[test]
fn letter_bands() {
    assert_eq!(calculate_letter_grade(9700), "A+");
    assert_eq!(calculate_letter_grade(9699), "A");
    assert_eq!(calculate_letter_grade(9000), "A-");
    assert_eq!(calculate_letter_grade(8700), "B+");
    assert_eq!(calculate_letter_grade(8300), "B");
    assert_eq!(calculate_letter_grade(8000), "B-");
    assert_eq!(calculate_letter_grade(7700), "C+");
    assert_eq!(calculate_letter_grade(7300), "C");
    assert_eq!(calculate_letter_grade(7000), "C-");
    assert_eq!(calculate_letter_grade(6700), "D+");
    assert_eq!(calculate_letter_grade(6300), "D");
    assert_eq!(calculate_letter_grade(6000), "D-");
    assert_eq!(calculate_letter_grade(5999), "F");
}

#[test]
fn bulk_import_is_all_or_itemised() {
    let mut s = setup();
    let entry = |student: &str, score: u64, kind: GradeType| BulkGradeEntry {
        student_id: student.to_string(),
        course_id: "CS101".to_string(),
        score,
        max_score: 10000,
        grade_type: kind,
        feedback: None,
    };
    let bad = vec![entry("student", 5000, GradeType::Quiz), entry("ghost", 5000, GradeType::Quiz), entry("student", 99999, GradeType::Quiz)];
    let r = bulk_import_grades(&mut s, &who("teacher"), &bad, 30).unwrap();
    assert_eq!(r.success_count, 0);
    assert_eq!(r.error_count, 2);
    assert_eq!(r.errors[0].row_index, 1);
    assert_eq!(r.errors[1].row_index, 2);
    assert!(get_course_grades(&s, "CS101").is_empty());

    let good = vec![entry("student", 9000, GradeType::Final), entry("student", 8000, GradeType::Final), entry("student", 7000, GradeType::Quiz)];
    let r = bulk_import_grades(&mut s, &who("teacher"), &good, 31).unwrap();
    assert_eq!(r.success_count, 2);
    assert_eq!(r.error_count, 1);
    assert_eq!(r.errors[0].row_index, 1);
    assert_eq!(get_student_grades(&s, "student", Some("CS101".to_string()), None, false).len(), 2);
    assert_eq!(get_student_grades(&s, "student", None, Some(GradeType::Final), true).len(), 1);
}

#[test]
fn course_statistics_and_distribution() {
    let mut s = setup();
    let t = who("teacher");
    assert_eq!(calculate_grade_statistics(&Vec::new()), GradeStatistics::default());
    for (i, score) in [9000u64, 7000, 8000, 6000].iter().enumerate() {
        record_grade(&mut s, &t, "student", "CS101", *score, 10000, GradeType::Assignment, None, 40 + i as u64).unwrap();
    }
    let grades = get_course_grades(&s, "CS101");
    let st = calculate_grade_statistics(&grades);
    assert_eq!(st.count, 4);
    assert_eq!(st.mean, 7500);
    assert_eq!(st.median, 7500);
    assert_eq!(st.min, 6000);
    assert_eq!(st.max, 9000);
    assert_eq!(st.std_deviation, 1118);
    let dist = calculate_letter_grade_distribution(&grades);
    assert_eq!(dist, vec![("A-".to_string(), 1), ("B-".to_string(), 1), ("C-".to_string(), 1), ("D-".to_string(), 1)]);
    let report = get_course_grades_with_stats(&s, &t, "CS101").unwrap();
    assert_eq!(report.total_grades, 4);
    assert_eq!(report.statistics, st);
    assert!(matches!(get_course_grades_with_stats(&s, &who("other"), "CS101"), Err(LMSError::Unauthorized(_))));
    record_grade(&mut s, &t, "student", "CS101", 9900, 10000, GradeType::Quiz, None, 50).unwrap();
    let st = calculate_grade_statistics(&get_course_grades(&s, "CS101"));
    assert_eq!(st.median, 8000);
}

#[test]
fn zero_scores_are_drafts_in_averages() {
    let mut s = setup();
    record_grade(&mut s, &who("teacher"), "student", "CS101", 0, 10000, GradeType::Participation, None, 60).unwrap();
    assert!(matches!(calculate_weighted_course_average(&s, "student", "CS101", None), Err(LMSError::NotFound(_))));
    assert_eq!(calculate_course_average(&s, "student", "CS101"), None);
    record_grade(&mut s, &who("teacher"), "student", "CS101", 9000, 10000, GradeType::Quiz, None, 61).unwrap();
    assert_eq!(calculate_course_average(&s, "student", "CS101"), Some(9000));
    assert_eq!(get_student_grades(&s, "student", Some("CS101".to_string()), None, true).len(), 2);
}
