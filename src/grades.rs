use vstd::prelude::*;
use vstd::string::StringExecFns;
use crate::course::{lists, contains_text, Course};
use crate::error::{text, LMSError, LMSResult};
use crate::grade::{copy_opt, Grade, GradeType};
use crate::quiz::Quiz;
use crate::rbac::{active_caller, has_admin_rights, is_admin, is_admin_compat, is_router_admin, lookup_user, lemma_lookup_at, resolution_error};
use crate::tenant::{course_exists, grade_exists, quiz_exists, unique_courses, unique_quizzes, TenantState};
use crate::user::is_admin_role;
use crate::utils::{generate_id, new_grade_id, push_decimal};

verus! {

/// A score may not exceed its maximum by more than a tenth (extra credit),
/// and the maximum must be positive. Scores are in hundredths of a point.
pub open spec fn score_ok(score: u64, max_score: u64) -> bool {
    max_score > 0 && 10 * score <= 11 * max_score
}

/// Checks a score against its maximum.
pub fn validate_score_range(score: u64, max_score: u64) -> (r: LMSResult<()>)
    ensures
        r is Ok == score_ok(score, max_score),
        r is Err ==> r->Err_0 is ValidationError,
{
    if max_score == 0 {
        return Err(LMSError::ValidationError(text("Max score must be greater than 0")));
    }
    if (score as u128) * 10 > (max_score as u128) * 11 {
        return Err(LMSError::ValidationError(text("Score exceeds maximum allowed (including extra credit)")));
    }
    Ok(())
}

/// The course whose id is `id`, if any (ids are unique).
pub open spec fn lookup_course(cs: Seq<Course>, id: Seq<char>) -> Option<Course> {
    if course_exists(cs, id) {
        Some(cs[choose|i: int| 0 <= i < cs.len() && (#[trigger] cs[i]).id@ == id])
    } else {
        None
    }
}

/// The quiz whose id is `id`, if any (ids are unique).
pub open spec fn lookup_quiz(qs: Seq<Quiz>, id: Seq<char>) -> Option<Quiz> {
    if quiz_exists(qs, id) {
        Some(qs[choose|i: int| 0 <= i < qs.len() && (#[trigger] qs[i]).id@ == id])
    } else {
        None
    }
}

pub proof fn lemma_course_at(cs: Seq<Course>, id: Seq<char>, i: int)
    requires
        unique_courses(cs),
        0 <= i < cs.len(),
        cs[i].id@ == id,
    ensures
        lookup_course(cs, id) == Some(cs[i]),
{
    let j = choose|j: int| 0 <= j < cs.len() && (#[trigger] cs[j]).id@ == id;
    assert(i == j);
}

pub proof fn lemma_quiz_at(qs: Seq<Quiz>, id: Seq<char>, i: int)
    requires
        unique_quizzes(qs),
        0 <= i < qs.len(),
        qs[i].id@ == id,
    ensures
        lookup_quiz(qs, id) == Some(qs[i]),
{
    let j = choose|j: int| 0 <= j < qs.len() && (#[trigger] qs[j]).id@ == id;
    assert(i == j);
}

/// The caller may manage the grades of course `course_id`: it has
/// administrator rights or teaches that course.
pub open spec fn may_grade(state: TenantState, caller: Option<String>, course_id: Seq<char>) -> bool {
    has_admin_rights(state, caller) || (caller is Some && lookup_course(state.courses(), course_id) is Some
        && lists(lookup_course(state.courses(), course_id)->Some_0.instructor_ids@, caller->Some_0@))
}

/// Checks that the caller may manage the grades of `course_id`.
pub fn validate_grading_permissions(state: &TenantState, caller: &Option<String>, course_id: &str) -> (r: LMSResult<()>)
    requires
        state.wf(),
    ensures
        r is Ok == may_grade(*state, *caller, course_id@),
        r is Err && lookup_course(state.courses(), course_id@) is None ==> r->Err_0 is NotFound,
        r is Err && lookup_course(state.courses(), course_id@) is Some ==> r->Err_0 is Unauthorized,
{
    if is_admin(state, caller) {
        return Ok(());
    }
    let cid = String::from_str(course_id);
    match state.find_course(&cid) {
        Some(i) => {
            proof {
                lemma_course_at(state.courses(), cid@, i as int);
            }
            let listed = match caller {
                Some(c) => contains_text(&state.course_records()[i].instructor_ids, c),
                None => false,
            };
            if listed {
                Ok(())
            } else {
                Err(LMSError::Unauthorized(text("Only course instructors or admins can manage grades")))
            }
        },
        None => Err(LMSError::NotFound(text("Course not found"))),
    }
}

/// The inputs of a grade are acceptable: the student exists and is active,
/// the course exists, and the score is in range.
pub open spec fn grade_input_ok(state: TenantState, student_id: Seq<char>, course_id: Seq<char>, score: u64, max_score: u64) -> bool {
    &&& lookup_user(state.users(), student_id) is Some
    &&& lookup_user(state.users(), student_id)->Some_0.is_active
    &&& lookup_course(state.courses(), course_id) is Some
    &&& score_ok(score, max_score)
}

/// Checks the student, the course and the score of a grade.
pub fn validate_grade_input(state: &TenantState, student_id: &str, course_id: &str, score: u64, max_score: u64) -> (r: LMSResult<()>)
    requires
        state.wf(),
    ensures
        r is Ok == grade_input_ok(*state, student_id@, course_id@, score, max_score),
        lookup_user(state.users(), student_id@) is None ==> r is Err && r->Err_0 is NotFound,
        lookup_user(state.users(), student_id@) is Some && !lookup_user(state.users(), student_id@)->Some_0.is_active
            ==> r is Err && r->Err_0 is ValidationError,
        lookup_user(state.users(), student_id@) is Some && lookup_user(state.users(), student_id@)->Some_0.is_active
            && lookup_course(state.courses(), course_id@) is None ==> r is Err && r->Err_0 is NotFound,
        r is Err && lookup_user(state.users(), student_id@) is Some && lookup_user(state.users(), student_id@)->Some_0.is_active
            && lookup_course(state.courses(), course_id@) is Some ==> r->Err_0 is ValidationError,
{
    let sid = String::from_str(student_id);
    match state.find_user(&sid) {
        Some(i) => {
            proof {
                lemma_lookup_at(state.users(), sid@, i as int);
            }
            if !state.user_records()[i].is_active {
                return Err(LMSError::ValidationError(text("Student account is inactive")));
            }
        },
        None => {
            return Err(LMSError::NotFound(text("Student not found")));
        },
    }
    let cid = String::from_str(course_id);
    match state.find_course(&cid) {
        Some(i) => {
            proof {
                lemma_course_at(state.courses(), cid@, i as int);
            }
        },
        None => {
            return Err(LMSError::NotFound(text("Course not found")));
        },
    }
    validate_score_range(score, max_score)
}

/// Whether a Final grade already exists for the student in the course.
pub open spec fn final_exists(gs: Seq<Grade>, student_id: Seq<char>, course_id: Seq<char>) -> bool {
    exists|i: int|
        0 <= i < gs.len() && (#[trigger] gs[i]).student_id@ == student_id && gs[i].course_id@ == course_id
            && gs[i].grade_type == GradeType::Final
}

/// Refuses a second Final grade for the same student and course; every other
/// kind of grade may repeat.
pub fn check_duplicate_grade(state: &TenantState, student_id: &str, course_id: &str, grade_type: &GradeType) -> (r: LMSResult<()>)
    ensures
        r is Ok == !(*grade_type == GradeType::Final && final_exists(state.grades(), student_id@, course_id@)),
        r is Err ==> r->Err_0 is ValidationError,
{
    if !matches!(grade_type, GradeType::Final) {
        return Ok(());
    }
    let sid = String::from_str(student_id);
    let cid = String::from_str(course_id);
    let gs = state.grade_records();
    let mut i: usize = 0;
    while i < gs.len()
        invariant
            gs@ == state.grades(),
            sid@ == student_id@,
            cid@ == course_id@,
            *grade_type == GradeType::Final,
            i <= gs@.len(),
            forall|k: int| 0 <= k < i ==> !((#[trigger] gs@[k]).student_id@ == sid@ && gs@[k].course_id@ == cid@
                && gs@[k].grade_type == GradeType::Final),
        decreases gs.len() - i,
    {
        if gs[i].student_id == sid && gs[i].course_id == cid && gs[i].grade_type == GradeType::Final {
            assert(state.grades()[i as int].student_id@ == student_id@);
            assert(state.grades()[i as int].course_id@ == course_id@);
            assert(state.grades()[i as int].grade_type == GradeType::Final);
            assert(final_exists(state.grades(), student_id@, course_id@));
            return Err(LMSError::ValidationError(text("Final grade already exists for this student")));
        }
        i += 1;
    }
    Ok(())
}

/// Checks that quiz `quiz_id` exists and belongs to course `course_id`.
pub fn validate_quiz_grade_context(state: &TenantState, quiz_id: &str, course_id: &str) -> (r: LMSResult<()>)
    requires
        state.wf(),
    ensures
        r is Ok == (lookup_quiz(state.quizzes(), quiz_id@) is Some && lookup_quiz(state.quizzes(), quiz_id@)->Some_0.course_id@ == course_id@),
        lookup_quiz(state.quizzes(), quiz_id@) is None ==> r is Err && r->Err_0 is NotFound,
        lookup_quiz(state.quizzes(), quiz_id@) is Some && r is Err ==> r->Err_0 is ValidationError,
{
    let qid = String::from_str(quiz_id);
    let cid = String::from_str(course_id);
    match state.find_quiz(&qid) {
        Some(i) => {
            proof {
                lemma_quiz_at(state.quizzes(), qid@, i as int);
            }
            if state.quiz_records()[i].course_id == cid {
                Ok(())
            } else {
                Err(LMSError::ValidationError(text("Quiz does not belong to this course")))
            }
        },
        None => Err(LMSError::NotFound(text("Quiz not found"))),
    }
}

pub(crate) fn grade_id_for(now: u64, n: u64) -> (r: String)
    ensures
        r@ == new_grade_id(now as nat, n as nat),
{
    let mut r = generate_id("grade", now);
    proof { reveal_strlit("_"); }
    assert("_"@ =~= seq!['_']);
    r.append("_");
    push_decimal(&mut r, n as u64);
    r
}

/// The caller's identity as recorded on a grade.
pub open spec fn grader_of(caller: Option<String>) -> Seq<char> {
    match caller {
        Some(c) => c@,
        None => Seq::empty(),
    }
}

fn grader_text(caller: &Option<String>) -> (r: String)
    ensures
        r@ == grader_of(*caller),
{
    match caller {
        Some(c) => c.clone(),
        None => String::new(),
    }
}

/// Everything a new grade needs: permission, valid input, no second Final,
/// and a fresh id.
pub open spec fn record_ok(
    state: TenantState,
    caller: Option<String>,
    student_id: Seq<char>,
    course_id: Seq<char>,
    score: u64,
    max_score: u64,
    grade_type: GradeType,
    now: u64,
) -> bool {
    &&& may_grade(state, caller, course_id)
    &&& grade_input_ok(state, student_id, course_id, score, max_score)
    &&& !(grade_type == GradeType::Final && final_exists(state.grades(), student_id, course_id))
    &&& state.grade_counter() < u64::MAX
}

/// `g` is the grade recorded from these inputs.
pub open spec fn is_recorded_grade(
    g: Grade,
    caller: Option<String>,
    student_id: Seq<char>,
    course_id: Seq<char>,
    score: u64,
    max_score: u64,
    grade_type: GradeType,
    quiz_id: Option<Seq<char>>,
    now: u64,
    n: nat,
) -> bool {
    &&& g.id@ == new_grade_id(now as nat, n)
    &&& g.student_id@ == student_id
    &&& g.course_id@ == course_id
    &&& g.score == score
    &&& g.max_score == max_score
    &&& g.grade_type == grade_type
    &&& g.lesson_id is None
    &&& g.graded_by@ == grader_of(caller)
    &&& g.graded_at == now
    &&& (match quiz_id {
        Some(q) => g.quiz_id is Some && g.quiz_id->Some_0@ == q,
        None => g.quiz_id is None,
    })
}

/// Only the grades changed, from `before` to `after`.
pub open spec fn others_kept(before: TenantState, after: TenantState) -> bool {
    &&& after.wf()
    &&& after.data() == before.data()
    &&& after.users() == before.users()
    &&& after.courses() == before.courses()
    &&& after.quizzes() == before.quizzes()
    &&& after.pre_users() == before.pre_users()
}

/// Records a grade for `student_id` in `course_id`, given by the caller at
/// time `now`: checks permission, the inputs and the one-Final rule, then
/// stores it.
pub fn record_grade(
    state: &mut TenantState,
    caller: &Option<String>,
    student_id: &str,
    course_id: &str,
    score: u64,
    max_score: u64,
    grade_type: GradeType,
    feedback: Option<String>,
    now: u64,
) -> (r: LMSResult<Grade>)
    requires
        old(state).wf(),
    ensures
        others_kept(*old(state), *final(state)),
        r is Ok == record_ok(*old(state), *caller, student_id@, course_id@, score, max_score, grade_type, now),
        r is Err ==> *final(state) == *old(state),
        r is Ok ==> final(state).grades() == old(state).grades().push(r->Ok_0),
        r is Ok ==> final(state).grade_counter() == old(state).grade_counter() + 1,
        r is Ok ==> is_recorded_grade(r->Ok_0, *caller, student_id@, course_id@, score, max_score, grade_type, None, now, old(state).grade_counter() as nat),
        r is Ok ==> r->Ok_0.feedback == feedback,
        !may_grade(*old(state), *caller, course_id@) ==> r is Err && (r->Err_0 is NotFound || r->Err_0 is Unauthorized),
        may_grade(*old(state), *caller, course_id@) && grade_input_ok(*old(state), student_id@, course_id@, score, max_score)
            && grade_type == GradeType::Final && final_exists(old(state).grades(), student_id@, course_id@)
            ==> r is Err && r->Err_0 is ValidationError,
        may_grade(*old(state), *caller, course_id@) && lookup_user(old(state).users(), student_id@) is Some
            && lookup_user(old(state).users(), student_id@)->Some_0.is_active && lookup_course(old(state).courses(), course_id@) is Some
            && !score_ok(score, max_score) ==> r is Err && r->Err_0 is ValidationError,
{
    validate_grading_permissions(state, caller, course_id)?;
    validate_grade_input(state, student_id, course_id, score, max_score)?;
    check_duplicate_grade(state, student_id, course_id, &grade_type)?;
    let n = state.next_grade_number();
    if n == u64::MAX {
        return Err(LMSError::InternalError(text("Grade numbers are exhausted")));
    }
    let id = grade_id_for(now, n);
    let grade = Grade {
        id,
        student_id: String::from_str(student_id),
        quiz_id: None,
        lesson_id: None,
        course_id: String::from_str(course_id),
        score,
        max_score,
        grade_type,
        feedback,
        graded_by: grader_text(caller),
        graded_at: now,
    };
    let result = grade.duplicate();
    state.insert_grade(grade, now);
    Ok(result)
}

/// Records the grade of a quiz: the same checks as any grade, plus that the
/// quiz belongs to the course.
pub fn record_quiz_grade(
    state: &mut TenantState,
    caller: &Option<String>,
    student_id: &str,
    course_id: &str,
    quiz_id: &str,
    score: u64,
    max_score: u64,
    feedback: Option<String>,
    now: u64,
) -> (r: LMSResult<Grade>)
    requires
        old(state).wf(),
    ensures
        others_kept(*old(state), *final(state)),
        r is Ok == (record_ok(*old(state), *caller, student_id@, course_id@, score, max_score, GradeType::Quiz, now)
            && lookup_quiz(old(state).quizzes(), quiz_id@) is Some && lookup_quiz(old(state).quizzes(), quiz_id@)->Some_0.course_id@ == course_id@),
        r is Err ==> *final(state) == *old(state),
        r is Ok ==> final(state).grades() == old(state).grades().push(r->Ok_0),
        r is Ok ==> final(state).grade_counter() == old(state).grade_counter() + 1,
        r is Ok ==> is_recorded_grade(r->Ok_0, *caller, student_id@, course_id@, score, max_score, GradeType::Quiz, Some(quiz_id@), now, old(state).grade_counter() as nat),
        r is Ok ==> r->Ok_0.feedback == feedback,
        may_grade(*old(state), *caller, course_id@) && lookup_quiz(old(state).quizzes(), quiz_id@) is Some
            && lookup_quiz(old(state).quizzes(), quiz_id@)->Some_0.course_id@ != course_id@ ==> r is Err && r->Err_0 is ValidationError,
{
    validate_grading_permissions(state, caller, course_id)?;
    validate_quiz_grade_context(state, quiz_id, course_id)?;
    validate_grade_input(state, student_id, course_id, score, max_score)?;
    let n = state.next_grade_number();
    if n == u64::MAX {
        return Err(LMSError::InternalError(text("Grade numbers are exhausted")));
    }
    let id = grade_id_for(now, n);
    let grade = Grade {
        id,
        student_id: String::from_str(student_id),
        quiz_id: Some(String::from_str(quiz_id)),
        lesson_id: None,
        course_id: String::from_str(course_id),
        score,
        max_score,
        grade_type: GradeType::Quiz,
        feedback,
        graded_by: grader_text(caller),
        graded_at: now,
    };
    let result = grade.duplicate();
    state.insert_grade(grade, now);
    Ok(result)
}

/// The grade whose id is `id`, if any (ids are unique).
pub open spec fn lookup_grade(gs: Seq<Grade>, id: Seq<char>) -> Option<Grade> {
    if grade_exists(gs, id) {
        Some(gs[choose|i: int| 0 <= i < gs.len() && (#[trigger] gs[i]).id@ == id])
    } else {
        None
    }
}

/// Changes the score and/or feedback of grade `grade_id`. Permission is
/// checked against the course stored on the grade; the grader and the time
/// are stamped anew. `reason` is for the audit log only.
pub fn update_grade(
    state: &mut TenantState,
    caller: &Option<String>,
    grade_id: &str,
    score: Option<u64>,
    feedback: Option<String>,
    reason: Option<String>,
    now: u64,
) -> (r: LMSResult<Grade>)
    requires
        old(state).wf(),
    ensures
        others_kept(*old(state), *final(state)),
        r is Err ==> final(state).grades() == old(state).grades(),
        lookup_grade(old(state).grades(), grade_id@) is None ==> r is Err && r->Err_0 is NotFound,
        lookup_grade(old(state).grades(), grade_id@) is Some ==> {
            let g = lookup_grade(old(state).grades(), grade_id@)->Some_0;
            &&& (r is Ok <==> (may_grade(*old(state), *caller, g.course_id@) && (score is Some ==> score_ok(score->Some_0, g.max_score))))
            &&& (r is Ok ==> exists|i: int| 0 <= i < old(state).grades().len() && old(state).grades()[i] == g
                && final(state).grades() == old(state).grades().update(i, r->Ok_0))
            &&& (r is Ok ==> r->Ok_0.id == g.id && r->Ok_0.student_id == g.student_id && r->Ok_0.course_id == g.course_id
                && r->Ok_0.quiz_id == g.quiz_id && r->Ok_0.lesson_id == g.lesson_id && r->Ok_0.max_score == g.max_score
                && r->Ok_0.grade_type == g.grade_type)
            &&& (r is Ok ==> r->Ok_0.score == (match score { Some(s) => s, None => g.score }))
            &&& (r is Ok ==> r->Ok_0.feedback == (match feedback { Some(f) => Some(f), None => g.feedback }))
            &&& (r is Ok ==> r->Ok_0.graded_by@ == grader_of(*caller) && r->Ok_0.graded_at == now)
        },
{
    let gid = String::from_str(grade_id);
    let i = match state.find_grade(&gid) {
        Some(i) => i,
        None => {
            return Err(LMSError::NotFound(text("Grade not found")));
        },
    };
    proof {
        let gs = state.grades();
        let j = choose|j: int| 0 <= j < gs.len() && (#[trigger] gs[j]).id@ == gid@;
        assert(i as int == j);
    }
    let mut grade = state.grade_records()[i].duplicate();
    validate_grading_permissions(state, caller, grade.course_id.as_str())?;
    if let Some(new_score) = score {
        validate_score_range(new_score, grade.max_score)?;
        grade.score = new_score;
    }
    if let Some(new_feedback) = feedback {
        grade.feedback = Some(new_feedback);
    }
    grade.graded_by = grader_text(caller);
    grade.graded_at = now;
    let result = grade.duplicate();
    state.replace_grade(i, grade);
    Ok(result)
}

/// Deletes grade `grade_id`. Only an active Admin or TenantAdmin may, and a
/// reason must be given for the audit log.
pub fn delete_grade(state: &mut TenantState, caller: &Option<String>, grade_id: &str, reason: &str) -> (r: LMSResult<()>)
    requires
        old(state).wf(),
    ensures
        others_kept(*old(state), *final(state)),
        r is Err ==> final(state).grades() == old(state).grades(),
        r is Ok == (has_admin_rights(*old(state), *caller) && reason@.len() > 0 && grade_exists(old(state).grades(), grade_id@)),
        !has_admin_rights(*old(state), *caller) && active_caller(*old(state), *caller) is None ==> r is Err
            && resolution_error(*old(state), *caller, r->Err_0),
        !has_admin_rights(*old(state), *caller) && active_caller(*old(state), *caller) is Some ==> r is Err
            && r->Err_0 is AccessDenied,
        r is Ok ==> exists|i: int| 0 <= i < old(state).grades().len() && old(state).grades()[i].id@ == grade_id@
            && final(state).grades() == old(state).grades().remove(i),
{
    is_admin_compat(state, caller)?;
    if reason.unicode_len() == 0 {
        return Err(LMSError::ValidationError(text("A reason is required to delete a grade")));
    }
    let gid = String::from_str(grade_id);
    match state.find_grade(&gid) {
        Some(i) => {
            state.delete_grade_at(i);
            Ok(())
        },
        None => Err(LMSError::NotFound(text("Grade not found"))),
    }
}

/// Whether grade `g` passes the filters of a student query. A zero score
/// counts as a draft.
pub open spec fn grade_selected(g: Grade, student_id: Seq<char>, course_id: Option<Seq<char>>, grade_type: Option<GradeType>, include_draft: bool) -> bool {
    &&& g.student_id@ == student_id
    &&& (course_id is Some ==> g.course_id@ == course_id->Some_0)
    &&& (grade_type is Some ==> g.grade_type == grade_type->Some_0)
    &&& (include_draft || g.score != 0)
}

/// The grades of `gs` that a student query selects, in order.
pub open spec fn selected_grades(gs: Seq<Grade>, student_id: Seq<char>, course_id: Option<Seq<char>>, grade_type: Option<GradeType>, include_draft: bool) -> Seq<Grade>
    decreases gs.len(),
{
    if gs.len() == 0 {
        seq![]
    } else {
        let rest = selected_grades(gs.drop_last(), student_id, course_id, grade_type, include_draft);
        if grade_selected(gs.last(), student_id, course_id, grade_type, include_draft) {
            rest.push(gs.last())
        } else {
            rest
        }
    }
}

/// The grades of `gs` in course `course_id`, in order.
pub open spec fn course_grades(gs: Seq<Grade>, course_id: Seq<char>) -> Seq<Grade>
    decreases gs.len(),
{
    if gs.len() == 0 {
        seq![]
    } else {
        let rest = course_grades(gs.drop_last(), course_id);
        if gs.last().course_id@ == course_id {
            rest.push(gs.last())
        } else {
            rest
        }
    }
}

/// The text of an optional string.
pub open spec fn opt_text(o: Option<String>) -> Option<Seq<char>> {
    match o {
        Some(c) => Some(c@),
        None => None,
    }
}

/// The student's grades, optionally only in one course and of one kind;
/// zero scores (drafts) only when `include_draft`.
pub fn get_student_grades(
    state: &TenantState,
    student_id: &str,
    course_id: Option<String>,
    grade_type: Option<GradeType>,
    include_draft: bool,
) -> (r: Vec<Grade>)
    ensures
        r@ == selected_grades(state.grades(), student_id@, opt_text(course_id), grade_type, include_draft),
{
    let ghost cv = opt_text(course_id);
    let sid = String::from_str(student_id);
    let gs = state.grade_records();
    let mut r: Vec<Grade> = Vec::new();
    let mut i: usize = 0;
    while i < gs.len()
        invariant
            gs@ == state.grades(),
            i <= gs@.len(),
            cv == opt_text(course_id),
            sid@ == student_id@,
            r@ == selected_grades(gs@.take(i as int), sid@, cv, grade_type, include_draft),
        decreases gs.len() - i,
    {
        assert(gs@.take(i as int + 1).drop_last() =~= gs@.take(i as int));
        assert(gs@.take(i as int + 1).last() == gs@[i as int]);
        let g = &gs[i];
        let mut keep = g.student_id == sid;
        if let Some(c) = &course_id {
            if g.course_id != *c {
                keep = false;
            }
        }
        if let Some(t) = &grade_type {
            if g.grade_type != *t {
                keep = false;
            }
        }
        if !include_draft && g.score == 0 {
            keep = false;
        }
        if keep {
            r.push(g.duplicate());
        }
        i += 1;
    }
    assert(gs@.take(gs@.len() as int) =~= gs@);
    r
}

/// Every grade of course `course_id`.
pub fn get_course_grades(state: &TenantState, course_id: &str) -> (r: Vec<Grade>)
    ensures
        r@ == course_grades(state.grades(), course_id@),
{
    let cid = String::from_str(course_id);
    let gs = state.grade_records();
    let mut r: Vec<Grade> = Vec::new();
    let mut i: usize = 0;
    while i < gs.len()
        invariant
            gs@ == state.grades(),
            i <= gs@.len(),
            cid@ == course_id@,
            r@ == course_grades(gs@.take(i as int), cid@),
        decreases gs.len() - i,
    {
        assert(gs@.take(i as int + 1).drop_last() =~= gs@.take(i as int));
        assert(gs@.take(i as int + 1).last() == gs@[i as int]);
        if gs[i].course_id == cid {
            r.push(gs[i].duplicate());
        }
        i += 1;
    }
    assert(gs@.take(gs@.len() as int) =~= gs@);
    r
}

/// The grade `grade_id`.
pub fn get_grade(state: &TenantState, grade_id: &str) -> (r: LMSResult<Grade>)
    requires
        state.wf(),
    ensures
        r is Ok == grade_exists(state.grades(), grade_id@),
        r is Ok ==> Some(r->Ok_0) == lookup_grade(state.grades(), grade_id@),
        r is Err ==> r->Err_0 is NotFound,
{
    let gid = String::from_str(grade_id);
    match state.find_grade(&gid) {
        Some(i) => {
            proof {
                let gs = state.grades();
                let j = choose|j: int| 0 <= j < gs.len() && (#[trigger] gs[j]).id@ == gid@;
                assert(i as int == j);
            }
            Ok(state.grade_records()[i].duplicate())
        },
        None => Err(LMSError::NotFound(text("Grade not found"))),
    }
}


/// One row of a bulk grade import (scores in hundredths of a point).
#[derive(Debug, Clone, PartialEq, Eq)]
pub struct BulkGradeEntry {
    pub student_id: String,
    pub course_id: String,
    pub score: u64,
    pub max_score: u64,
    pub grade_type: GradeType,
    pub feedback: Option<String>,
}

/// What a bulk import did.
#[derive(Debug, Clone, PartialEq, Eq)]
pub struct BulkImportResult {
    pub success_count: usize,
    pub error_count: usize,
    pub errors: Vec<BulkImportError>,
}

/// Why one row of a bulk import failed.
#[derive(Debug, Clone, PartialEq, Eq)]
pub struct BulkImportError {
    pub row_index: usize,
    pub error: String,
}

/// Checks one row of a bulk import against the current state.
pub fn validate_bulk_grade_entry(state: &TenantState, entry: &BulkGradeEntry) -> (r: LMSResult<()>)
    requires
        state.wf(),
    ensures
        r is Ok == grade_input_ok(*state, entry.student_id@, entry.course_id@, entry.score, entry.max_score),
{
    validate_grade_input(state, entry.student_id.as_str(), entry.course_id.as_str(), entry.score, entry.max_score)
}

/// Indices of the rows among the first `n` of `es` that fail validation.
pub open spec fn invalid_rows(state: TenantState, es: Seq<BulkGradeEntry>, n: int) -> Seq<int>
    decreases n,
{
    if n <= 0 {
        seq![]
    } else {
        let rest = invalid_rows(state, es, n - 1);
        let e = es[n - 1];
        if grade_input_ok(state, e.student_id@, e.course_id@, e.score, e.max_score) {
            rest
        } else {
            rest.push(n - 1)
        }
    }
}

/// Row indices of the errors, in order.
pub open spec fn error_rows(errs: Seq<BulkImportError>) -> Seq<int> {
    Seq::new(errs.len(), |k: int| errs[k].row_index as int)
}

/// Whether row `e` passes permission and input checks in `state` (which do
/// not change while a batch is imported).
pub open spec fn row_checks_ok(state: TenantState, caller: Option<String>, e: BulkGradeEntry) -> bool {
    may_grade(state, caller, e.course_id@) && grade_input_ok(state, e.student_id@, e.course_id@, e.score, e.max_score)
}

/// Whether row `k` of `es` is imported when the batch is recorded in order
/// starting from `state`: its checks pass, it is not a second Final for its
/// student and course (counting Finals stored before and those imported
/// from earlier rows), and grade numbers are not exhausted.
pub open spec fn row_imported(state: TenantState, caller: Option<String>, es: Seq<BulkGradeEntry>, k: int) -> bool
    decreases k, 1nat,
{
    if k < 0 || k >= es.len() {
        false
    } else {
        let e = es[k];
        &&& row_checks_ok(state, caller, e)
        &&& !(e.grade_type == GradeType::Final && (final_exists(state.grades(), e.student_id@, e.course_id@)
            || final_added(state, caller, es, k, e.student_id@, e.course_id@)))
        &&& state.grade_counter() + imported_before(state, caller, es, k) < u64::MAX
    }
}

/// Whether one of the first `k` rows imported a Final for student `s` in
/// course `c`.
pub open spec fn final_added(state: TenantState, caller: Option<String>, es: Seq<BulkGradeEntry>, k: int, s: Seq<char>, c: Seq<char>) -> bool
    decreases k, 0nat,
{
    if k <= 0 || k > es.len() {
        false
    } else {
        final_added(state, caller, es, k - 1, s, c) || (row_imported(state, caller, es, k - 1)
            && es[k - 1].grade_type == GradeType::Final && es[k - 1].student_id@ == s && es[k - 1].course_id@ == c)
    }
}

/// How many of the first `k` rows are imported.
pub open spec fn imported_before(state: TenantState, caller: Option<String>, es: Seq<BulkGradeEntry>, k: int) -> nat
    decreases k, 0nat,
{
    if k <= 0 || k > es.len() {
        0
    } else {
        imported_before(state, caller, es, k - 1) + if row_imported(state, caller, es, k - 1) { 1nat } else { 0nat }
    }
}

/// Indices of the first `k` rows that are not imported, in order.
pub open spec fn failed_rows(state: TenantState, caller: Option<String>, es: Seq<BulkGradeEntry>, k: int) -> Seq<int>
    decreases k,
{
    if k <= 0 || k > es.len() {
        seq![]
    } else {
        let rest = failed_rows(state, caller, es, k - 1);
        if row_imported(state, caller, es, k - 1) { rest } else { rest.push(k - 1) }
    }
}

/// `g` is the grade recorded from row `k` of `es`, numbered `n`.
pub open spec fn grade_from_row(g: Grade, es: Seq<BulkGradeEntry>, caller: Option<String>, now: u64, n: nat, k: int) -> bool {
    &&& 0 <= k < es.len()
    &&& is_recorded_grade(g, caller, es[k].student_id@, es[k].course_id@, es[k].score, es[k].max_score, es[k].grade_type, None, now, n)
    &&& g.feedback == es[k].feedback
}

/// The grades of `gs` from index `from` on were recorded, in order, from the
/// rows of `es` whose indices `src` lists, numbered from `first`.
pub open spec fn grades_from_rows(gs: Seq<Grade>, from: int, es: Seq<BulkGradeEntry>, caller: Option<String>, now: u64, first: nat, src: Seq<int>) -> bool {
    &&& gs.len() == from + src.len()
    &&& forall|m: int| 0 <= m < src.len() ==> #[trigger] grade_from_row(gs[from + m], es, caller, now, first + m as nat, src[m])
    &&& forall|a: int, b: int| 0 <= a < b < src.len() ==> #[trigger] src[a] < #[trigger] src[b]
}

/// Imports many grades in two phases. First every row is validated; if any
/// fails, nothing is imported and exactly the failing rows are reported.
/// Otherwise each row is recorded in order, as `record_grade` would: the
/// rows it refuses (permission, a second Final, also within the batch where
/// the first one wins) are reported one by one and the others stored.
pub fn bulk_import_grades(state: &mut TenantState, caller: &Option<String>, entries: &Vec<BulkGradeEntry>, now: u64) -> (r: LMSResult<BulkImportResult>)
    requires
        old(state).wf(),
    ensures
        others_kept(*old(state), *final(state)),
        r is Ok,
        r->Ok_0.error_count == r->Ok_0.errors@.len(),
        invalid_rows(*old(state), entries@, entries@.len() as int).len() > 0 ==> {
            &&& final(state).grades() == old(state).grades()
            &&& r->Ok_0.success_count == 0
            &&& error_rows(r->Ok_0.errors@) == invalid_rows(*old(state), entries@, entries@.len() as int)
        },
        invalid_rows(*old(state), entries@, entries@.len() as int).len() == 0 ==> {
            &&& r->Ok_0.success_count == imported_before(*old(state), *caller, entries@, entries@.len() as int)
            &&& error_rows(r->Ok_0.errors@) == failed_rows(*old(state), *caller, entries@, entries@.len() as int)
            &&& final(state).grades().len() == old(state).grades().len() + r->Ok_0.success_count
            &&& final(state).grades().take(old(state).grades().len() as int) == old(state).grades()
            &&& exists|src: Seq<int>| #[trigger] grades_from_rows(final(state).grades(), old(state).grades().len() as int, entries@,
                *caller, now, old(state).grade_counter() as nat, src)
        },
{
    let n = entries.len();
    let mut validation_errors: Vec<BulkImportError> = Vec::new();
    let mut i: usize = 0;
    while i < n
        invariant
            n == entries@.len(),
            i <= n,
            state.wf(),
            error_rows(validation_errors@) == invalid_rows(*state, entries@, i as int),
        decreases n - i,
    {
        let ghost before = validation_errors@;
        match validate_bulk_grade_entry(state, &entries[i]) {
            Ok(()) => {},
            Err(e) => {
                validation_errors.push(BulkImportError { row_index: i, error: e.to_display_string() });
                assert(error_rows(validation_errors@) =~= error_rows(before).push(i as int));
            },
        }
        i += 1;
    }
    if validation_errors.len() > 0 {
        let count = validation_errors.len();
        return Ok(BulkImportResult { success_count: 0, error_count: count, errors: validation_errors });
    }
    let ghost s0 = *state;
    let ghost g0 = state.grades();
    let ghost es = entries@;
    let mut success_count: usize = 0;
    let mut import_errors: Vec<BulkImportError> = Vec::new();
    let ghost mut src: Seq<int> = Seq::empty();
    let mut j: usize = 0;
    while j < n
        invariant
            n == entries@.len(),
            es == entries@,
            j <= n,
            s0 == *old(state),
            g0 == old(state).grades(),
            others_kept(*old(state), *state),
            success_count as nat == imported_before(s0, *caller, es, j as int),
            success_count <= j,
            state.grade_counter() == s0.grade_counter() + success_count,
            state.grades().len() == g0.len() + success_count,
            state.grades().take(g0.len() as int) == g0,
            error_rows(import_errors@) == failed_rows(s0, *caller, es, j as int),
            grades_from_rows(state.grades(), g0.len() as int, es, *caller, now, s0.grade_counter() as nat, src),
            forall|m: int| 0 <= m < src.len() ==> #[trigger] src[m] < j,
            forall|s: Seq<char>, c: Seq<char>| #[trigger] final_exists(state.grades(), s, c) == (final_exists(g0, s, c)
                || final_added(s0, *caller, es, j as int, s, c)),
        decreases n - j,
    {
        let e = &entries[j];
        let ghost gb = state.grades();
        let ghost sb = *state;
        proof {
            assert(may_grade(sb, *caller, e.course_id@) == may_grade(s0, *caller, e.course_id@));
            assert(grade_input_ok(sb, e.student_id@, e.course_id@, e.score, e.max_score) == grade_input_ok(s0, e.student_id@, e.course_id@, e.score, e.max_score));
            assert(final_exists(gb, e.student_id@, e.course_id@) == (final_exists(g0, e.student_id@, e.course_id@)
                || final_added(s0, *caller, es, j as int, e.student_id@, e.course_id@)));
            assert(record_ok(sb, *caller, e.student_id@, e.course_id@, e.score, e.max_score, e.grade_type, now)
                == row_imported(s0, *caller, es, j as int));
        }
        let outcome = record_grade(
            state,
            caller,
            e.student_id.as_str(),
            e.course_id.as_str(),
            e.score,
            e.max_score,
            e.grade_type,
            copy_opt(&e.feedback),
            now,
        );
        let ghost before_errors = import_errors@;
        match outcome {
            Ok(g) => {
                assert(state.grades().take(g0.len() as int) =~= gb.take(g0.len() as int));
                proof {
                    let src0 = src;
                    let gs = state.grades();
                    src = src.push(j as int);
                    assert forall|m: int| 0 <= m < src.len() implies #[trigger] grade_from_row(gs[g0.len() + m], es, *caller, now,
                        s0.grade_counter() as nat + m as nat, src[m]) by {
                        if m < src0.len() {
                            assert(src[m] == src0[m]);
                            assert(gs[g0.len() + m] == gb[g0.len() + m]);
                            assert(grade_from_row(gb[g0.len() + m], es, *caller, now, s0.grade_counter() as nat + m as nat, src0[m]));
                        } else {
                            assert(g0.len() + m == gb.len());
                            assert(gs[gb.len() as int] == g);
                        }
                    }
                    assert forall|a: int, b: int| 0 <= a < b < src.len() implies #[trigger] src[a] < #[trigger] src[b] by {
                        if b < src0.len() {
                            assert(src[a] == src0[a] && src[b] == src0[b]);
                        } else {
                            assert(src[a] == src0[a]);
                            assert(src0[a] < j);
                        }
                    }
                    assert forall|m: int| 0 <= m < src.len() implies #[trigger] src[m] < j + 1 by {
                        if m < src0.len() {
                            assert(src[m] == src0[m]);
                        }
                    }
                    assert(grades_from_rows(gs, g0.len() as int, es, *caller, now, s0.grade_counter() as nat, src));
                }
                proof {
                    assert forall|s: Seq<char>, c: Seq<char>| #[trigger] final_exists(state.grades(), s, c) == (final_exists(g0, s, c)
                        || final_added(s0, *caller, es, j as int + 1, s, c)) by {
                        let gs = state.grades();
                        if final_exists(gs, s, c) {
                            let i = choose|i: int| 0 <= i < gs.len() && (#[trigger] gs[i]).student_id@ == s && gs[i].course_id@ == c
                                && gs[i].grade_type == GradeType::Final;
                            if i < gb.len() {
                                assert(gb[i] == gs[i]);
                            }
                        }
                        if final_exists(gb, s, c) {
                            let i = choose|i: int| 0 <= i < gb.len() && (#[trigger] gb[i]).student_id@ == s && gb[i].course_id@ == c
                                && gb[i].grade_type == GradeType::Final;
                            assert(gs[i] == gb[i]);
                        }
                        if g.grade_type == GradeType::Final && g.student_id@ == s && g.course_id@ == c {
                            assert(gs[gb.len() as int] == g);
                        }
                    }
                }
                success_count += 1;
            },
            Err(err) => {
                import_errors.push(BulkImportError { row_index: j, error: err.to_display_string() });
                assert(error_rows(import_errors@) =~= error_rows(before_errors).push(j as int));
            },
        }
        j += 1;
    }
    let count = import_errors.len();
    assert(grades_from_rows(state.grades(), g0.len() as int, es, *caller, now, s0.grade_counter() as nat, src));
    Ok(BulkImportResult { success_count, error_count: count, errors: import_errors })
}

/// A second Final grade for a student and course is refused once one has
/// been recorded, whatever else holds; grades of any other kind are never
/// refused by that rule, so they may repeat.
pub proof fn lemma_final_grade_unique(gs: Seq<Grade>, g: Grade, t: GradeType)
    requires
        g.grade_type == GradeType::Final,
    ensures
        final_exists(gs.push(g), g.student_id@, g.course_id@),
        t != GradeType::Final ==> !(t == GradeType::Final && final_exists(gs.push(g), g.student_id@, g.course_id@)),
{
    assert(gs.push(g)[gs.len() as int] == g);
}
} // verus!
