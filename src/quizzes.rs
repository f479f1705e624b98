use vstd::prelude::*;
use crate::courses::may_modify_course;
use crate::error::{text, LMSError, LMSResult};
use crate::grades::{lemma_course_at, lookup_course};
use crate::quiz::{Question, QuestionType, Quiz};
use crate::utils::{push_decimal, trim_text, trimmed};
use vstd::string::StrSliceExecFns;
use vstd::string::StringExecFns;
use crate::rbac::{can_modify_course, has_teacher_rights, require_teacher_rights};
use crate::tenant::{course_exists, quiz_exists, TenantState};

verus! {

/// A quiz title: not blank, at most 200 characters.
pub open spec fn title_ok(t: Seq<char>) -> bool {
    trimmed(t).len() > 0 && t.len() <= 200
}

/// A quiz description: at most 2000 characters.
pub open spec fn description_ok(d: Seq<char>) -> bool {
    d.len() <= 2000
}

/// A question: text not blank, worth at least a point; a multiple-choice
/// question has two options or more and a correct answer among them; an
/// essay's word limit, if any, is positive.
pub open spec fn question_ok(q: Question) -> bool {
    &&& trimmed(q.question_text@).len() > 0
    &&& q.points > 0
    &&& match q.question_type {
        QuestionType::MultipleChoice { options, correct_answer } => options@.len() >= 2 && correct_answer < options@.len(),
        QuestionType::Essay { max_words } => max_words is Some ==> max_words->Some_0 > 0,
        _ => true,
    }
}

/// One to a hundred questions, each valid.
pub open spec fn questions_ok(qs: Seq<Question>) -> bool {
    1 <= qs.len() <= 100 && forall|i: int| 0 <= i < qs.len() ==> question_ok(#[trigger] qs[i])
}

/// Checks a quiz title.
pub fn validate_title(title: &str) -> (r: LMSResult<()>)
    ensures
        r is Ok == title_ok(title@),
        r is Err ==> r->Err_0 is ValidationError,
{
    if trim_text(title).as_str().unicode_len() == 0 {
        return Err(LMSError::ValidationError(text("Quiz title cannot be empty")));
    }
    if title.unicode_len() > 200 {
        return Err(LMSError::ValidationError(text("Quiz title too long (max 200 characters)")));
    }
    Ok(())
}

/// Checks a quiz description.
pub fn validate_description(description: &str) -> (r: LMSResult<()>)
    ensures
        r is Ok == description_ok(description@),
        r is Err ==> r->Err_0 is ValidationError,
{
    if description.unicode_len() > 2000 {
        return Err(LMSError::ValidationError(text("Description too long (max 2000 characters)")));
    }
    Ok(())
}

fn question_error(index: usize, what: &str) -> (r: LMSError)
    requires
        index < usize::MAX,
    ensures
        r is ValidationError,
{
    let mut m = text("Question ");
    push_decimal(&mut m, (index + 1) as u64);
    m.append(what);
    LMSError::ValidationError(m)
}

/// Checks one question; `index` counts from 0 and is shown from 1.
pub fn validate_question(question: &Question, index: usize) -> (r: LMSResult<()>)
    requires
        index < usize::MAX,
    ensures
        r is Ok == question_ok(*question),
        r is Err ==> r->Err_0 is ValidationError,
{
    if trim_text(question.question_text.as_str()).as_str().unicode_len() == 0 {
        return Err(question_error(index, " text cannot be empty"));
    }
    if question.points == 0 {
        return Err(question_error(index, " must have at least 1 point"));
    }
    match &question.question_type {
        QuestionType::MultipleChoice { options, correct_answer } => {
            if options.len() < 2 {
                return Err(question_error(index, " must have at least 2 options"));
            }
            if *correct_answer >= options.len() {
                return Err(question_error(index, " correct answer index out of bounds"));
            }
        },
        QuestionType::Essay { max_words } => {
            if let Some(m) = max_words {
                if *m == 0 {
                    return Err(question_error(index, " max words must be greater than 0"));
                }
            }
        },
        _ => {},
    }
    Ok(())
}

/// Checks the questions of a quiz.
pub fn validate_questions(questions: &Vec<Question>) -> (r: LMSResult<()>)
    ensures
        r is Ok == questions_ok(questions@),
        r is Err ==> r->Err_0 is ValidationError,
{
    if questions.len() == 0 {
        return Err(LMSError::ValidationError(text("Quiz must have at least one question")));
    }
    if questions.len() > 100 {
        return Err(LMSError::ValidationError(text("Too many questions (max 100)")));
    }
    let mut i: usize = 0;
    while i < questions.len()
        invariant
            i <= questions@.len() <= 100,
            forall|j: int| 0 <= j < i ==> question_ok(#[trigger] questions@[j]),
        decreases questions.len() - i,
    {
        validate_question(&questions[i], i)?;
        i += 1;
    }
    Ok(())
}

/// Checks the content of a quiz: title, description, questions, and at
/// least one attempt allowed.
pub fn validate_quiz_data(title: &str, description: &str, questions: &Vec<Question>, max_attempts: u32) -> (r: LMSResult<()>)
    ensures
        r is Ok == (title_ok(title@) && description_ok(description@) && questions_ok(questions@) && max_attempts >= 1),
        r is Err ==> r->Err_0 is ValidationError,
{
    validate_title(title)?;
    validate_description(description)?;
    validate_questions(questions)?;
    if max_attempts == 0 {
        return Err(LMSError::ValidationError(text("Max attempts must be at least 1")));
    }
    Ok(())
}

/// Adds `quiz` to its course. The caller must be an instructor or above who
/// may change that course, and the quiz id must be new.
pub fn create_quiz(state: &mut TenantState, caller: &Option<String>, quiz: Quiz) -> (r: LMSResult<()>)
    requires
        old(state).wf(),
    ensures
        final(state).wf(),
        final(state).data() == old(state).data(),
        final(state).users() == old(state).users(),
        final(state).courses() == old(state).courses(),
        final(state).grades() == old(state).grades(),
        final(state).pre_users() == old(state).pre_users(),
        r is Ok == (has_teacher_rights(*old(state), *caller) && title_ok(quiz.title@) && description_ok(quiz.description@)
            && questions_ok(quiz.questions@) && quiz.max_attempts >= 1 && course_exists(old(state).courses(), quiz.course_id@)
            && may_modify_course(*old(state), *caller, lookup_course(old(state).courses(), quiz.course_id@)->Some_0)
            && !quiz_exists(old(state).quizzes(), quiz.id@)),
        r is Ok ==> final(state).quizzes() == old(state).quizzes().push(quiz),
        r is Err ==> final(state).quizzes() == old(state).quizzes(),
{
    require_teacher_rights(state, caller)?;
    validate_quiz_data(quiz.title.as_str(), quiz.description.as_str(), &quiz.questions, quiz.max_attempts)?;
    let i = match state.find_course(&quiz.course_id) {
        Some(i) => i,
        None => {
            return Err(LMSError::NotFound(text("Course not found")));
        },
    };
    proof {
        lemma_course_at(state.courses(), quiz.course_id@, i as int);
    }
    if !can_modify_course(state, caller, &state.course_records()[i]) {
        return Err(LMSError::Unauthorized(text("Only course instructors or admins can add quizzes")));
    }
    if state.find_quiz(&quiz.id).is_some() {
        return Err(LMSError::AlreadyExists(text("Quiz already exists")));
    }
    state.insert_quiz(quiz);
    Ok(())
}

} // verus!
