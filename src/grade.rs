use vstd::prelude::*;

verus! {

/// Kinds of grade.
#[derive(Debug, Clone, Copy, PartialEq, Eq, Hash, Structural)]
pub enum GradeType {
    Quiz,
    Assignment,
    Participation,
    Final,
    Midterm,
    Project,
    Lab,
    Homework,
    ExtraCredit,
}

/// A recorded grade. Scores are in hundredths of a point: a score of 85.5
/// out of 100 is `score == 8550`, `max_score == 10000`.
#[derive(Debug, Clone, PartialEq, Eq)]
pub struct Grade {
    pub id: String,
    pub student_id: String,
    pub quiz_id: Option<String>,
    pub lesson_id: Option<String>,
    pub course_id: String,
    pub score: u64,
    pub max_score: u64,
    pub grade_type: GradeType,
    pub feedback: Option<String>,
    pub graded_by: String,
    pub graded_at: u64,
}

/// A copy of an optional string.
pub fn copy_opt(s: &Option<String>) -> (r: Option<String>)
    ensures
        r == *s,
{
    match s {
        Some(t) => Some(t.clone()),
        None => None,
    }
}

impl Grade {
    /// A field-by-field copy.
    pub fn duplicate(&self) -> (r: Grade)
        ensures
            r == *self,
    {
        Grade {
            id: self.id.clone(),
            student_id: self.student_id.clone(),
            quiz_id: copy_opt(&self.quiz_id),
            lesson_id: copy_opt(&self.lesson_id),
            course_id: self.course_id.clone(),
            score: self.score,
            max_score: self.max_score,
            grade_type: self.grade_type,
            feedback: copy_opt(&self.feedback),
            graded_by: self.graded_by.clone(),
            graded_at: self.graded_at,
        }
    }
}

} // verus!
