use vstd::prelude::*;
use vstd::string::StringExecFns;
use crate::course::{contains_text, lists, same_course, Course};
use crate::error::{text, LMSError, LMSResult};
use crate::grades::{lemma_course_at, lookup_course};
use crate::rbac::{
    active_caller, can_access_user_data, can_modify_course, has_admin_rights, has_teacher_rights,
    is_admin_compat, may_access_user, require_authenticated, require_teacher_rights,
};
use crate::tenant::{course_exists, get_tenant_id, unique_courses, TenantState};
use crate::key_order::{key_order, permuted, positions, sort_keys, views_of};
use crate::user::{copy_strings, is_admin_role, role_level};

verus! {

/// Only the courses changed, from `before` to `after`.
pub open spec fn only_courses_changed(before: TenantState, after: TenantState) -> bool {
    &&& after.wf()
    &&& after.data() == before.data()
    &&& after.users() == before.users()
    &&& after.grades() == before.grades()
    &&& after.quizzes() == before.quizzes()
    &&& after.pre_users() == before.pre_users()
}

/// The caller may change course `c`: it teaches it or has administrator
/// rights.
pub open spec fn may_modify_course(state: TenantState, caller: Option<String>, c: Course) -> bool {
    (caller is Some && lists(c.instructor_ids@, caller->Some_0@)) || has_admin_rights(state, caller)
}

/// `after` differs from `before` at most in the course `id`, which became `c`.
pub open spec fn course_replaced(before: Seq<Course>, after: Seq<Course>, id: Seq<char>, c: Course) -> bool {
    &&& after.len() == before.len()
    &&& forall|k: int| 0 <= k < before.len() ==> #[trigger] after[k] == (if before[k].id@ == id { c } else { before[k] })
}

/// Creates course `id` taught by the caller, who must have teaching rights
/// (an instructor or above, or the router-designated administrator).
pub fn create_course(
    state: &mut TenantState,
    caller: &Option<String>,
    id: &str,
    title: &str,
    description: &str,
    now: u64,
) -> (r: LMSResult<Course>)
    requires
        old(state).wf(),
    ensures
        only_courses_changed(*old(state), *final(state)),
        r is Ok == (has_teacher_rights(*old(state), *caller) && old(state).data() is Some && !course_exists(old(state).courses(), id@)),
        r is Err ==> final(state).courses() == old(state).courses(),
        r is Ok ==> final(state).courses().len() == old(state).courses().len() + 1,
        r is Ok ==> final(state).courses().drop_last() == old(state).courses(),
        r is Ok ==> same_course(r->Ok_0, final(state).courses().last()),
        r is Ok ==> r->Ok_0.id@ == id@ && r->Ok_0.title@ == title@ && r->Ok_0.description@ == description@
            && r->Ok_0.instructor_ids@.len() == 1 && r->Ok_0.instructor_ids@[0]@ == caller->Some_0@
            && r->Ok_0.tenant_id == old(state).data()->Some_0.tenant_id && r->Ok_0.lessons@.len() == 0
            && r->Ok_0.enrolled_students@.len() == 0 && r->Ok_0.created_at == now && r->Ok_0.updated_at == now
            && !r->Ok_0.is_published,
        has_teacher_rights(*old(state), *caller) && old(state).data() is Some && course_exists(old(state).courses(), id@)
            ==> r is Err && r->Err_0 is AlreadyExists,
{
    let me = require_teacher_rights(state, caller)?;
    let tenant_id = get_tenant_id(state)?;
    let cid = String::from_str(id);
    if state.find_course(&cid).is_some() {
        return Err(LMSError::AlreadyExists(text("Course already exists")));
    }
    let mut instructors: Vec<String> = Vec::new();
    instructors.push(me);
    let course = Course {
        id: cid,
        title: String::from_str(title),
        description: String::from_str(description),
        instructor_ids: instructors,
        tenant_id,
        lessons: Vec::new(),
        enrolled_students: Vec::new(),
        created_at: now,
        updated_at: now,
        is_published: false,
    };
    let result = course.duplicate();
    let ghost before = state.courses();
    state.insert_course(course);
    assert(state.courses().drop_last() =~= before);
    Ok(result)
}

/// Every course, for any active caller; nothing otherwise.
pub fn list_courses(state: &TenantState, caller: &Option<String>) -> (r: Vec<Course>)
    requires
        state.wf(),
    ensures
        active_caller(*state, *caller) is None ==> r@.len() == 0,
        active_caller(*state, *caller) is Some ==> r@.len() == state.courses().len()
            && forall|k: int| 0 <= k < r@.len() ==> same_course(#[trigger] r@[k], state.courses()[k]),
{
    if require_authenticated(state, caller).is_err() {
        return Vec::new();
    }
    let cs = state.course_records();
    let mut r: Vec<Course> = Vec::new();
    let mut i: usize = 0;
    while i < cs.len()
        invariant
            i <= cs@.len(),
            r@.len() == i,
            forall|k: int| 0 <= k < i ==> same_course(#[trigger] r@[k], cs@[k]),
        decreases cs.len() - i,
    {
        r.push(cs[i].duplicate());
        i += 1;
    }
    r
}

/// Course `course_id`, for any active caller.
pub fn get_course(state: &TenantState, caller: &Option<String>, course_id: &str) -> (r: LMSResult<Course>)
    requires
        state.wf(),
    ensures
        r is Ok == (active_caller(*state, *caller) is Some && course_exists(state.courses(), course_id@)),
        r is Ok ==> same_course(r->Ok_0, lookup_course(state.courses(), course_id@)->Some_0),
        active_caller(*state, *caller) is Some && !course_exists(state.courses(), course_id@) ==> r is Err && r->Err_0 is NotFound,
{
    require_authenticated(state, caller)?;
    let cid = String::from_str(course_id);
    match state.find_course(&cid) {
        Some(i) => {
            proof {
                lemma_course_at(state.courses(), cid@, i as int);
            }
            Ok(state.course_records()[i].duplicate())
        },
        None => Err(LMSError::NotFound(text("Course not found"))),
    }
}

/// Enrols `student_id` in course `course_id`. The caller must be an
/// instructor or above and teach the course or have administrator rights.
pub fn enroll_student(state: &mut TenantState, caller: &Option<String>, course_id: &str, student_id: &str, now: u64) -> (r: LMSResult<()>)
    requires
        old(state).wf(),
    ensures
        only_courses_changed(*old(state), *final(state)),
        r is Err ==> final(state).courses() == old(state).courses(),
        r is Ok == (has_teacher_rights(*old(state), *caller) && course_exists(old(state).courses(), course_id@) && {
            let c = lookup_course(old(state).courses(), course_id@)->Some_0;
            may_modify_course(*old(state), *caller, c) && !lists(c.enrolled_students@, student_id@)
        }),
        r is Ok ==> {
            let c = lookup_course(old(state).courses(), course_id@)->Some_0;
            let n = lookup_course(final(state).courses(), course_id@)->Some_0;
            &&& course_replaced(old(state).courses(), final(state).courses(), course_id@, n)
            &&& n.enrolled_students@.len() == c.enrolled_students@.len() + 1
            &&& n.enrolled_students@.drop_last() == c.enrolled_students@
            &&& n.enrolled_students@.last()@ == student_id@
            &&& n.updated_at == now
        },
{
    require_teacher_rights(state, caller)?;
    let cid = String::from_str(course_id);
    let i = match state.find_course(&cid) {
        Some(i) => i,
        None => {
            return Err(LMSError::NotFound(text("Course not found")));
        },
    };
    proof {
        lemma_course_at(state.courses(), cid@, i as int);
    }
    if !can_modify_course(state, caller, &state.course_records()[i]) {
        return Err(LMSError::Unauthorized(text("Only course instructors or admin can enroll students")));
    }
    let sid = String::from_str(student_id);
    if contains_text(&state.course_records()[i].enrolled_students, &sid) {
        return Err(LMSError::AlreadyExists(text("Student already enrolled")));
    }
    let old_course = &state.course_records()[i];
    let mut course = Course {
        id: old_course.id.clone(),
        title: old_course.title.clone(),
        description: old_course.description.clone(),
        instructor_ids: copy_strings(&old_course.instructor_ids),
        tenant_id: old_course.tenant_id.clone(),
        lessons: copy_strings(&old_course.lessons),
        enrolled_students: copy_strings(&old_course.enrolled_students),
        created_at: old_course.created_at,
        updated_at: now,
        is_published: old_course.is_published,
    };
    let ghost before = course.enrolled_students@;
    course.enrolled_students.push(sid);
    assert(course.enrolled_students@.drop_last() =~= before);
    let ghost nc = course;
    state.replace_course(i, course);
    proof {
        lemma_course_at(state.courses(), course_id@, i as int);
        assert forall|k: int| 0 <= k < old(state).courses().len() implies #[trigger] state.courses()[k] == (if old(state).courses()[k].id@ == course_id@ { nc } else { old(state).courses()[k] }) by {
            if k != i && old(state).courses()[k].id@ == course_id@ {
                assert(old(state).courses()[k].id@ == old(state).courses()[i as int].id@);
            }
        }
    }
    Ok(())
}

/// The course after an update: each given field replaced, the update time
/// set to `now`.
pub open spec fn updated_course(c: Course, title: Option<String>, description: Option<String>, is_published: Option<bool>, now: u64) -> Course {
    Course {
        title: match title { Some(t) => t, None => c.title },
        description: match description { Some(d) => d, None => c.description },
        is_published: match is_published { Some(p) => p, None => c.is_published },
        updated_at: now,
        ..c
    }
}

/// Changes the title, description and/or publication of course
/// `course_id`. The caller must be an instructor or above and teach the
/// course or have administrator rights.
pub fn update_course(
    state: &mut TenantState,
    caller: &Option<String>,
    course_id: &str,
    title: Option<String>,
    description: Option<String>,
    is_published: Option<bool>,
    now: u64,
) -> (r: LMSResult<Course>)
    requires
        old(state).wf(),
    ensures
        only_courses_changed(*old(state), *final(state)),
        r is Err ==> final(state).courses() == old(state).courses(),
        r is Ok == (has_teacher_rights(*old(state), *caller) && course_exists(old(state).courses(), course_id@)
            && may_modify_course(*old(state), *caller, lookup_course(old(state).courses(), course_id@)->Some_0)),
        has_teacher_rights(*old(state), *caller) && !course_exists(old(state).courses(), course_id@) ==> r is Err
            && r->Err_0 is NotFound,
        has_teacher_rights(*old(state), *caller) && course_exists(old(state).courses(), course_id@) && !may_modify_course(
            *old(state),
            *caller,
            lookup_course(old(state).courses(), course_id@)->Some_0,
        ) ==> r is Err && r->Err_0 is Unauthorized,
        r is Ok ==> {
            let c = lookup_course(old(state).courses(), course_id@)->Some_0;
            let n = lookup_course(final(state).courses(), course_id@)->Some_0;
            &&& course_replaced(old(state).courses(), final(state).courses(), course_id@, n)
            &&& same_course(n, updated_course(c, title, description, is_published, now))
            &&& same_course(r->Ok_0, n)
        },
{
    require_teacher_rights(state, caller)?;
    let cid = String::from_str(course_id);
    let i = match state.find_course(&cid) {
        Some(i) => i,
        None => {
            return Err(LMSError::NotFound(text("Course not found")));
        },
    };
    proof {
        lemma_course_at(state.courses(), cid@, i as int);
    }
    if !can_modify_course(state, caller, &state.course_records()[i]) {
        return Err(LMSError::Unauthorized(text("Only course instructors or admin can update course")));
    }
    let mut course = state.course_records()[i].duplicate();
    if let Some(t) = title {
        course.title = t;
    }
    if let Some(d) = description {
        course.description = d;
    }
    if let Some(p) = is_published {
        course.is_published = p;
    }
    course.updated_at = now;
    let result = course.duplicate();
    let ghost nc = course;
    state.replace_course(i, course);
    proof {
        lemma_course_at(state.courses(), course_id@, i as int);
        assert forall|k: int| 0 <= k < old(state).courses().len() implies #[trigger] state.courses()[k] == (if old(state).courses()[k].id@ == course_id@ { nc } else { old(state).courses()[k] }) by {
            if k != i && old(state).courses()[k].id@ == course_id@ {
                assert(old(state).courses()[k].id@ == old(state).courses()[i as int].id@);
            }
        }
    }
    Ok(result)
}

/// The course ids, in storage order.
pub open spec fn course_keys(cs: Seq<Course>) -> Seq<Seq<char>> {
    Seq::new(cs.len(), |i: int| cs[i].id@)
}

/// `v` lists, course by course, the courses `expected` (visited in the key
/// order `idx` of `cs`).
pub open spec fn courses_listed(v: Seq<Course>, cs: Seq<Course>, idx: Seq<int>, expected: Seq<Course>) -> bool {
    &&& key_order(course_keys(cs), idx)
    &&& v.len() == expected.len()
    &&& forall|k: int| 0 <= k < v.len() ==> same_course(#[trigger] v[k], expected[k])
}

fn course_keys_of(cs: &Vec<Course>) -> (r: Vec<String>)
    requires
        unique_courses(cs@),
    ensures
        views_of(r@) == course_keys(cs@),
        forall|a: int, b: int| 0 <= a < r@.len() && 0 <= b < r@.len() && a != b ==> (#[trigger] r@[a])@ != (#[trigger] r@[b])@,
{
    let mut r: Vec<String> = Vec::new();
    let mut i: usize = 0;
    while i < cs.len()
        invariant
            i <= cs@.len(),
            r@.len() == i,
            forall|k: int| 0 <= k < i ==> (#[trigger] r@[k])@ == cs@[k].id@,
        decreases cs.len() - i,
    {
        r.push(cs[i].id.clone());
        i += 1;
    }
    assert(views_of(r@) =~= course_keys(cs@));
    r
}

/// The courses of `cs` whose instructors list `who`, in order.
pub open spec fn courses_taught_by(cs: Seq<Course>, who: Seq<char>) -> Seq<Course>
    decreases cs.len(),
{
    if cs.len() == 0 {
        seq![]
    } else {
        let rest = courses_taught_by(cs.drop_last(), who);
        if lists(cs.last().instructor_ids@, who) { rest.push(cs.last()) } else { rest }
    }
}

/// The courses of `cs` that enrol `who`, in order.
pub open spec fn courses_taken_by(cs: Seq<Course>, who: Seq<char>) -> Seq<Course>
    decreases cs.len(),
{
    if cs.len() == 0 {
        seq![]
    } else {
        let rest = courses_taken_by(cs.drop_last(), who);
        if lists(cs.last().enrolled_students@, who) { rest.push(cs.last()) } else { rest }
    }
}

/// The courses `instructor_id` teaches, in course-id order, if the caller may read that user's
/// data; nothing otherwise.
pub fn get_instructor_courses(state: &TenantState, caller: &Option<String>, instructor_id: &str) -> (r: Vec<Course>)
    requires
        state.wf(),
    ensures
        !may_access_user(*state, *caller, instructor_id@) ==> r@.len() == 0,
        may_access_user(*state, *caller, instructor_id@) ==> exists|idx: Seq<int>| #[trigger] courses_listed(r@, state.courses(), idx,
            courses_taught_by(permuted(state.courses(), idx), instructor_id@)),
{
    if can_access_user_data(state, caller, instructor_id).is_err() {
        return Vec::new();
    }
    let who = String::from_str(instructor_id);
    let cs = state.course_records();
    let keys = course_keys_of(cs);
    let order = sort_keys(&keys);
    let ghost idx = positions(order@);
    let ghost ps = permuted(cs@, idx);
    let mut r: Vec<Course> = Vec::new();
    let mut i: usize = 0;
    while i < order.len()
        invariant
            idx == positions(order@),
            key_order(course_keys(cs@), idx),
            ps == permuted(cs@, idx),
            ps.len() == order@.len(),
            i <= ps.len(),
            who@ == instructor_id@,
            r@.len() == courses_taught_by(ps.take(i as int), who@).len(),
            forall|k: int| 0 <= k < r@.len() ==> same_course(#[trigger] r@[k], courses_taught_by(ps.take(i as int), who@)[k]),
        decreases order.len() - i,
    {
        assert(ps.take(i as int + 1).drop_last() =~= ps.take(i as int));
        assert(ps.take(i as int + 1).last() == ps[i as int]);
        assert(idx[i as int] == order@[i as int] as int);
        assert(0 <= idx[i as int] < course_keys(cs@).len());
        let c = &cs[order[i]];
        assert(*c == ps[i as int]);
        if contains_text(&c.instructor_ids, &who) {
            r.push(c.duplicate());
        }
        i += 1;
    }
    assert(ps.take(ps.len() as int) =~= ps);
    assert(courses_listed(r@, state.courses(), idx, courses_taught_by(permuted(state.courses(), idx), instructor_id@)));
    r
}

/// The courses `student_id` is enrolled in, in course-id order, if the caller may read that
/// user's data; nothing otherwise.
pub fn get_student_courses(state: &TenantState, caller: &Option<String>, student_id: &str) -> (r: Vec<Course>)
    requires
        state.wf(),
    ensures
        !may_access_user(*state, *caller, student_id@) ==> r@.len() == 0,
        may_access_user(*state, *caller, student_id@) ==> exists|idx: Seq<int>| #[trigger] courses_listed(r@, state.courses(), idx,
            courses_taken_by(permuted(state.courses(), idx), student_id@)),
{
    if can_access_user_data(state, caller, student_id).is_err() {
        return Vec::new();
    }
    let who = String::from_str(student_id);
    let cs = state.course_records();
    let keys = course_keys_of(cs);
    let order = sort_keys(&keys);
    let ghost idx = positions(order@);
    let ghost ps = permuted(cs@, idx);
    let mut r: Vec<Course> = Vec::new();
    let mut i: usize = 0;
    while i < order.len()
        invariant
            idx == positions(order@),
            key_order(course_keys(cs@), idx),
            ps == permuted(cs@, idx),
            ps.len() == order@.len(),
            i <= ps.len(),
            who@ == student_id@,
            r@.len() == courses_taken_by(ps.take(i as int), who@).len(),
            forall|k: int| 0 <= k < r@.len() ==> same_course(#[trigger] r@[k], courses_taken_by(ps.take(i as int), who@)[k]),
        decreases order.len() - i,
    {
        assert(ps.take(i as int + 1).drop_last() =~= ps.take(i as int));
        assert(ps.take(i as int + 1).last() == ps[i as int]);
        assert(idx[i as int] == order@[i as int] as int);
        assert(0 <= idx[i as int] < course_keys(cs@).len());
        let c = &cs[order[i]];
        assert(*c == ps[i as int]);
        if contains_text(&c.enrolled_students, &who) {
            r.push(c.duplicate());
        }
        i += 1;
    }
    assert(ps.take(ps.len() as int) =~= ps);
    assert(courses_listed(r@, state.courses(), idx, courses_taken_by(permuted(state.courses(), idx), student_id@)));
    r
}

/// The instructors of course `course_id`, for any active caller.
pub fn get_course_instructors(state: &TenantState, caller: &Option<String>, course_id: &str) -> (r: LMSResult<Vec<String>>)
    requires
        state.wf(),
    ensures
        r is Ok == (active_caller(*state, *caller) is Some && course_exists(state.courses(), course_id@)),
        r is Ok ==> r->Ok_0@ == lookup_course(state.courses(), course_id@)->Some_0.instructor_ids@,
        active_caller(*state, *caller) is Some && !course_exists(state.courses(), course_id@) ==> r is Err
            && r->Err_0 is NotFound,
        r is Ok ==> r->Ok_0@.len() > 0,
        r is Ok ==> forall|a: int, b: int| 0 <= a < r->Ok_0@.len() && 0 <= b < r->Ok_0@.len() && a != b
            ==> (#[trigger] r->Ok_0@[a])@ != (#[trigger] r->Ok_0@[b])@,
{
    require_authenticated(state, caller)?;
    let cid = String::from_str(course_id);
    match state.find_course(&cid) {
        Some(i) => {
            proof {
                lemma_course_at(state.courses(), cid@, i as int);
            }
            assert(crate::tenant::instructors_ok(state.courses()[i as int]));
            Ok(copy_strings(&state.course_records()[i].instructor_ids))
        },
        None => Err(LMSError::NotFound(text("Course not found"))),
    }
}

/// Adds `instructor_id` to the instructors of course `course_id`; only an
/// active Admin or TenantAdmin may.
pub fn add_instructor_to_course(state: &mut TenantState, caller: &Option<String>, course_id: &str, instructor_id: &str, now: u64) -> (r: LMSResult<Course>)
    requires
        old(state).wf(),
    ensures
        only_courses_changed(*old(state), *final(state)),
        r is Err ==> final(state).courses() == old(state).courses(),
        r is Ok == (has_admin_rights(*old(state), *caller) && course_exists(old(state).courses(), course_id@)
            && !lists(lookup_course(old(state).courses(), course_id@)->Some_0.instructor_ids@, instructor_id@)),
        r is Ok ==> {
            let c = lookup_course(old(state).courses(), course_id@)->Some_0;
            let n = lookup_course(final(state).courses(), course_id@)->Some_0;
            &&& course_replaced(old(state).courses(), final(state).courses(), course_id@, n)
            &&& n.instructor_ids@.drop_last() == c.instructor_ids@
            &&& n.instructor_ids@.len() == c.instructor_ids@.len() + 1
            &&& n.instructor_ids@.last()@ == instructor_id@
            &&& same_course(r->Ok_0, n)
        },
{
    is_admin_compat(state, caller)?;
    let cid = String::from_str(course_id);
    let i = match state.find_course(&cid) {
        Some(i) => i,
        None => {
            return Err(LMSError::NotFound(text("Course not found")));
        },
    };
    proof {
        lemma_course_at(state.courses(), cid@, i as int);
    }
    let who = String::from_str(instructor_id);
    if contains_text(&state.course_records()[i].instructor_ids, &who) {
        return Err(LMSError::AlreadyExists(text("Instructor already assigned to this course")));
    }
    let mut course = state.course_records()[i].duplicate();
    let ghost before = course.instructor_ids@;
    course.instructor_ids.push(who);
    assert(course.instructor_ids@.drop_last() =~= before);
    course.updated_at = now;
    let result = course.duplicate();
    let ghost nc = course;
    state.replace_course(i, course);
    proof {
        lemma_course_at(state.courses(), course_id@, i as int);
        assert forall|k: int| 0 <= k < old(state).courses().len() implies #[trigger] state.courses()[k] == (if old(state).courses()[k].id@ == course_id@ { nc } else { old(state).courses()[k] }) by {
            if k != i && old(state).courses()[k].id@ == course_id@ {
                assert(old(state).courses()[k].id@ == old(state).courses()[i as int].id@);
            }
        }
    }
    Ok(result)
}

/// Removes `instructor_id` from the instructors of course `course_id`; only
/// an active Admin or TenantAdmin may, and never the last instructor.
pub fn remove_instructor_from_course(state: &mut TenantState, caller: &Option<String>, course_id: &str, instructor_id: &str, now: u64) -> (r: LMSResult<Course>)
    requires
        old(state).wf(),
    ensures
        only_courses_changed(*old(state), *final(state)),
        r is Err ==> final(state).courses() == old(state).courses(),
        r is Ok == (has_admin_rights(*old(state), *caller) && course_exists(old(state).courses(), course_id@)
            && lookup_course(old(state).courses(), course_id@)->Some_0.instructor_ids@.len() > 1
            && lists(lookup_course(old(state).courses(), course_id@)->Some_0.instructor_ids@, instructor_id@)),
        has_admin_rights(*old(state), *caller) && course_exists(old(state).courses(), course_id@)
            && lookup_course(old(state).courses(), course_id@)->Some_0.instructor_ids@.len() <= 1
            ==> r is Err && r->Err_0 is ValidationError,
        r is Ok ==> {
            let c = lookup_course(old(state).courses(), course_id@)->Some_0;
            let n = lookup_course(final(state).courses(), course_id@)->Some_0;
            &&& course_replaced(old(state).courses(), final(state).courses(), course_id@, n)
            &&& n.instructor_ids@.len() == c.instructor_ids@.len() - 1
            &&& n.instructor_ids@.len() >= 1
            &&& exists|p: int| 0 <= p < c.instructor_ids@.len() && (#[trigger] c.instructor_ids@[p])@ == instructor_id@
                && n.instructor_ids@ == c.instructor_ids@.remove(p)
            &&& same_course(r->Ok_0, n)
        },
{
    is_admin_compat(state, caller)?;
    let cid = String::from_str(course_id);
    let i = match state.find_course(&cid) {
        Some(i) => i,
        None => {
            return Err(LMSError::NotFound(text("Course not found")));
        },
    };
    proof {
        lemma_course_at(state.courses(), cid@, i as int);
    }
    if state.course_records()[i].instructor_ids.len() <= 1 {
        return Err(LMSError::ValidationError(text("Course must have at least one instructor")));
    }
    let who = String::from_str(instructor_id);
    let mut course = state.course_records()[i].duplicate();
    let mut p: usize = 0;
    while p < course.instructor_ids.len() && !(course.instructor_ids[p] == who)
        invariant
            p <= course.instructor_ids@.len(),
            who@ == instructor_id@,
            forall|m: int| 0 <= m < p ==> (#[trigger] course.instructor_ids@[m])@ != who@,
        decreases course.instructor_ids.len() - p,
    {
        p += 1;
    }
    if p == course.instructor_ids.len() {
        return Err(LMSError::NotFound(text("Instructor not found in this course")));
    }
    let ghost before = course.instructor_ids@;
    assert(before[p as int]@ == instructor_id@);
    assert(before == old(state).courses()[i as int].instructor_ids@);
    course.instructor_ids.remove(p);
    assert(course.instructor_ids@ == before.remove(p as int));
    course.updated_at = now;
    let result = course.duplicate();
    let ghost nc = course;
    state.replace_course(i, course);
    proof {
        lemma_course_at(state.courses(), course_id@, i as int);
        assert forall|k: int| 0 <= k < old(state).courses().len() implies #[trigger] state.courses()[k] == (if old(state).courses()[k].id@ == course_id@ { nc } else { old(state).courses()[k] }) by {
            if k != i && old(state).courses()[k].id@ == course_id@ {
                assert(old(state).courses()[k].id@ == old(state).courses()[i as int].id@);
            }
        }
        let c = old(state).courses()[i as int];
        assert((c.instructor_ids@[p as int])@ == instructor_id@ && nc.instructor_ids@ == c.instructor_ids@.remove(p as int));
    }
    Ok(result)
}

} // verus!
