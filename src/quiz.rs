use vstd::prelude::*;

verus! {

/// A quiz attached to a course.
#[derive(Debug, Clone, PartialEq, Eq)]
pub struct Quiz {
    pub id: String,
    pub course_id: String,
    pub title: String,
    pub description: String,
    pub questions: Vec<Question>,
    pub time_limit_minutes: Option<u32>,
    pub max_attempts: u32,
    pub created_at: u64,
    pub updated_at: u64,
}

/// One question of a quiz.
#[derive(Debug, Clone, PartialEq, Eq)]
pub struct Question {
    pub id: String,
    pub question_text: String,
    pub question_type: QuestionType,
    pub points: u32,
}

/// Kinds of question, with what grading each needs.
#[derive(Debug, Clone, PartialEq, Eq)]
pub enum QuestionType {
    MultipleChoice { options: Vec<String>, correct_answer: usize },
    TrueFalse { correct_answer: bool },
    ShortAnswer { sample_answer: String },
    Essay { max_words: Option<u32> },
}

/// A student's answer to one question.
#[derive(Debug, Clone, PartialEq, Eq)]
pub struct Answer {
    pub question_id: String,
    pub answer_text: String,
    pub is_correct: Option<bool>,
}

} // verus!
