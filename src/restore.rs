use vstd::prelude::*;
use vstd::string::StrSliceExecFns;
use vstd::string::StringExecFns;
use crate::course::{contains_text, Course};
use crate::error::{text, LMSError, LMSResult};
use crate::grade::Grade;
use crate::grades::grade_id_for;
use crate::pre_provision::PreProvisionedUser;
use crate::quiz::Quiz;
use crate::tenant::{instructors_ok, TenantData, TenantState};
use crate::user::User;
use crate::utils::new_grade_id;

verus! {

fn digit_value(c: char) -> (r: Option<u64>)
    ensures
        r is Some ==> r->Some_0 < 10,
{
    if c == '0' { Some(0) }
    else if c == '1' { Some(1) }
    else if c == '2' { Some(2) }
    else if c == '3' { Some(3) }
    else if c == '4' { Some(4) }
    else if c == '5' { Some(5) }
    else if c == '6' { Some(6) }
    else if c == '7' { Some(7) }
    else if c == '8' { Some(8) }
    else if c == '9' { Some(9) }
    else { None }
}

/// The number written in decimal between positions `from` and `to` of `s`.
fn read_number(s: &str, from: usize, to: usize) -> (r: Option<u64>)
    requires
        from <= to <= s@.len(),
{
    if from == to {
        return None;
    }
    let mut v: u64 = 0;
    let mut i: usize = from;
    while i < to
        invariant
            from <= i <= to <= s@.len(),
        decreases to - i,
    {
        let d = match digit_value(s.get_char(i)) {
            Some(d) => d,
            None => {
                return None;
            },
        };
        if v > (u64::MAX - 9) / 10 {
            return None;
        }
        v = v * 10 + d;
        i += 1;
    }
    Some(v)
}

/// The time and number a generated grade id was made from, if it is one.
pub fn grade_number(id: &String) -> (r: Option<(u64, u64)>)
    ensures
        r is Some ==> new_grade_id(r->Some_0.0 as nat, r->Some_0.1 as nat) == id@,
{
    let s = id.as_str();
    let n = s.unicode_len();
    if n < 6 {
        return None;
    }
    let mut sep: usize = 6;
    while sep < n && s.get_char(sep) != '_'
        invariant
            6 <= sep <= n,
            n == s@.len(),
        decreases n - sep,
    {
        sep += 1;
    }
    if sep >= n {
        return None;
    }
    let t = match read_number(s, 6, sep) {
        Some(t) => t,
        None => {
            return None;
        },
    };
    let k = match read_number(s, sep + 1, n) {
        Some(k) => k,
        None => {
            return None;
        },
    };
    if grade_id_for(t, k) == *id {
        Some((t, k))
    } else {
        None
    }
}

fn instructors_valid(c: &Course) -> (r: bool)
    ensures
        r == instructors_ok(*c),
{
    let v = &c.instructor_ids;
    if v.len() == 0 {
        return false;
    }
    let mut i: usize = 0;
    while i < v.len()
        invariant
            v@ == c.instructor_ids@,
            i <= v@.len(),
            forall|a: int, b: int| 0 <= a < i && 0 <= b < v@.len() && a != b ==> (#[trigger] v@[a])@ != (#[trigger] v@[b])@,
        decreases v.len() - i,
    {
        let mut j: usize = 0;
        while j < v.len()
            invariant
                v@ == c.instructor_ids@,
                i < v@.len(),
                j <= v@.len(),
                forall|a: int, b: int| 0 <= a < i && 0 <= b < v@.len() && a != b ==> (#[trigger] v@[a])@ != (#[trigger] v@[b])@,
                forall|b: int| 0 <= b < j && b != i ==> (#[trigger] v@[b])@ != v@[i as int]@,
            decreases v.len() - j,
        {
            if j != i && v[j] == v[i] {
                assert(c.instructor_ids@[j as int]@ == c.instructor_ids@[i as int]@);
                assert(!instructors_ok(*c));
                return false;
            }
            j += 1;
        }
        i += 1;
    }
    true
}

/// Rebuilds a tenant's state from saved records (after an upgrade). The
/// saved records must keep the state's rules: unique keys, valid grades with
/// generated ids numbered below `next_grade`, and instructor lists that are
/// non-empty and without repeats; otherwise the restore is refused.
pub fn restore_tenant(
    data: Option<TenantData>,
    users: Vec<User>,
    courses: Vec<Course>,
    grades: Vec<Grade>,
    quizzes: Vec<Quiz>,
    pre_users: Vec<PreProvisionedUser>,
    next_grade: u64,
) -> (r: LMSResult<TenantState>)
    ensures
        r is Err ==> r->Err_0 is ValidationError,
        r is Ok ==> {
            let st = r->Ok_0;
            &&& st.wf()
            &&& st.data() == data
            &&& st.grade_counter() == next_grade
            &&& st.users() == users@
            &&& st.courses() == courses@
            &&& st.grades() == grades@
            &&& st.quizzes() == quizzes@
            &&& st.pre_users() == pre_users@
        },
{
    let ghost us0 = users@;
    let ghost cs0 = courses@;
    let ghost gs0 = grades@;
    let ghost qs0 = quizzes@;
    let ghost ps0 = pre_users@;
    let mut st = TenantState::empty_with(data, next_grade);
    let mut users = users;
    while users.len() > 0
        invariant
            st.wf(),
            st.data() == data,
            st.grade_counter() == next_grade,
            st.users() + users@ == us0,
            st.courses().len() == 0 && st.grades().len() == 0 && st.quizzes().len() == 0 && st.pre_users().len() == 0,
        decreases users@.len(),
    {
        let u = users.remove(0);
        if st.find_user(&u.id).is_some() {
            return Err(LMSError::ValidationError(text("Saved users repeat an id")));
        }
        let ghost before = st.users();
        st.insert_user(u);
        assert(st.users() + users@ =~= us0) by {
            assert(before + (seq![u] + users@) =~= us0);
        }
    }
    assert(st.users() =~= us0);
    let mut courses = courses;
    while courses.len() > 0
        invariant
            st.wf(),
            st.data() == data,
            st.grade_counter() == next_grade,
            st.users() == us0,
            st.courses() + courses@ == cs0,
            st.grades().len() == 0 && st.quizzes().len() == 0 && st.pre_users().len() == 0,
        decreases courses@.len(),
    {
        let c = courses.remove(0);
        if st.find_course(&c.id).is_some() || !instructors_valid(&c) {
            return Err(LMSError::ValidationError(text("Saved courses repeat an id or have a bad instructor list")));
        }
        let ghost before = st.courses();
        st.insert_course(c);
        assert(st.courses() + courses@ =~= cs0) by {
            assert(before + (seq![c] + courses@) =~= cs0);
        }
    }
    assert(st.courses() =~= cs0);
    let mut grades = grades;
    while grades.len() > 0
        invariant
            st.wf(),
            st.data() == data,
            st.grade_counter() == next_grade,
            st.users() == us0,
            st.courses() == cs0,
            st.grades() + grades@ == gs0,
            st.quizzes().len() == 0 && st.pre_users().len() == 0,
        decreases grades@.len(),
    {
        let g = grades.remove(0);
        let (t, k) = match grade_number(&g.id) {
            Some(tk) => tk,
            None => {
                return Err(LMSError::ValidationError(text("Saved grade id is not a generated one")));
            },
        };
        if k >= next_grade || st.find_grade(&g.id).is_some() || g.max_score == 0
            || (g.score as u128) * 10 > (g.max_score as u128) * 11 {
            return Err(LMSError::ValidationError(text("Saved grade breaks the grade rules")));
        }
        let ghost before = st.grades();
        st.push_saved_grade(g, Ghost(t as nat), Ghost(k as nat));
        assert(st.grades() + grades@ =~= gs0) by {
            assert(before + (seq![g] + grades@) =~= gs0);
        }
    }
    assert(st.grades() =~= gs0);
    let mut quizzes = quizzes;
    while quizzes.len() > 0
        invariant
            st.wf(),
            st.data() == data,
            st.grade_counter() == next_grade,
            st.users() == us0,
            st.courses() == cs0,
            st.grades() == gs0,
            st.quizzes() + quizzes@ == qs0,
            st.pre_users().len() == 0,
        decreases quizzes@.len(),
    {
        let q = quizzes.remove(0);
        if st.find_quiz(&q.id).is_some() {
            return Err(LMSError::ValidationError(text("Saved quizzes repeat an id")));
        }
        let ghost before = st.quizzes();
        st.insert_quiz(q);
        assert(st.quizzes() + quizzes@ =~= qs0) by {
            assert(before + (seq![q] + quizzes@) =~= qs0);
        }
    }
    assert(st.quizzes() =~= qs0);
    let mut pre_users = pre_users;
    while pre_users.len() > 0
        invariant
            st.wf(),
            st.data() == data,
            st.grade_counter() == next_grade,
            st.users() == us0,
            st.courses() == cs0,
            st.grades() == gs0,
            st.quizzes() == qs0,
            st.pre_users() + pre_users@ == ps0,
        decreases pre_users@.len(),
    {
        let p = pre_users.remove(0);
        if st.find_pre_user(&p.university_id).is_some() {
            return Err(LMSError::ValidationError(text("Saved imported records repeat a university id")));
        }
        let ghost before = st.pre_users();
        st.insert_pre_user(p);
        assert(st.pre_users() + pre_users@ =~= ps0) by {
            assert(before + (seq![p] + pre_users@) =~= ps0);
        }
    }
    assert(st.pre_users() =~= ps0);
    Ok(st)
}

} // verus!
