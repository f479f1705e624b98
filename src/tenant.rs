use vstd::prelude::*;
use crate::course::Course;
use crate::error::{text, LMSError, LMSResult};
use crate::grade::Grade;
use crate::pre_provision::PreProvisionedUser;
use crate::quiz::Quiz;
use crate::user::{User, UserRole};
use crate::error::join3;
use crate::utils::{lemma_grade_id_injective, new_grade_id};

verus! {

/// Set once when the instance is created: who the tenant is and which
/// identity the router designated as its first administrator.
#[derive(Debug, Clone, PartialEq, Eq)]
pub struct TenantData {
    pub tenant_id: String,
    pub admin_principal: Option<String>,
    pub is_initialized: bool,
    pub created_at: u64,
}

/// Whether a user with id `id` exists.
pub open spec fn user_exists(us: Seq<User>, id: Seq<char>) -> bool {
    exists|i: int| 0 <= i < us.len() && (#[trigger] us[i]).id@ == id
}

/// Whether a course with id `id` exists.
pub open spec fn course_exists(cs: Seq<Course>, id: Seq<char>) -> bool {
    exists|i: int| 0 <= i < cs.len() && (#[trigger] cs[i]).id@ == id
}

/// Whether a grade with id `id` exists.
pub open spec fn grade_exists(gs: Seq<Grade>, id: Seq<char>) -> bool {
    exists|i: int| 0 <= i < gs.len() && (#[trigger] gs[i]).id@ == id
}

/// Whether a quiz with id `id` exists.
pub open spec fn quiz_exists(qs: Seq<Quiz>, id: Seq<char>) -> bool {
    exists|i: int| 0 <= i < qs.len() && (#[trigger] qs[i]).id@ == id
}

/// Whether an imported record with university id `id` exists.
pub open spec fn pre_user_exists(ps: Seq<PreProvisionedUser>, id: Seq<char>) -> bool {
    exists|i: int| 0 <= i < ps.len() && (#[trigger] ps[i]).university_id@ == id
}

pub open spec fn unique_users(us: Seq<User>) -> bool {
    forall|i: int, j: int| 0 <= i < us.len() && 0 <= j < us.len() && i != j ==> (#[trigger] us[i]).id@ != (#[trigger] us[j]).id@
}

pub open spec fn unique_courses(cs: Seq<Course>) -> bool {
    forall|i: int, j: int| 0 <= i < cs.len() && 0 <= j < cs.len() && i != j ==> (#[trigger] cs[i]).id@ != (#[trigger] cs[j]).id@
}

pub open spec fn unique_grades(gs: Seq<Grade>) -> bool {
    forall|i: int, j: int| 0 <= i < gs.len() && 0 <= j < gs.len() && i != j ==> (#[trigger] gs[i]).id@ != (#[trigger] gs[j]).id@
}

pub open spec fn unique_quizzes(qs: Seq<Quiz>) -> bool {
    forall|i: int, j: int| 0 <= i < qs.len() && 0 <= j < qs.len() && i != j ==> (#[trigger] qs[i]).id@ != (#[trigger] qs[j]).id@
}

pub open spec fn unique_pre_users(ps: Seq<PreProvisionedUser>) -> bool {
    forall|i: int, j: int| 0 <= i < ps.len() && 0 <= j < ps.len() && i != j ==> (#[trigger] ps[i]).university_id@ != (#[trigger] ps[j]).university_id@
}

/// Every grade's score is within its bound: a positive maximum and at most
/// a tenth of extra credit (scores in hundredths of a point).
pub open spec fn valid_grades(gs: Seq<Grade>) -> bool {
    forall|i: int| 0 <= i < gs.len() ==> (#[trigger] gs[i]).max_score > 0 && 10 * gs[i].score <= 11 * gs[i].max_score
}

/// Whether some user of `us` is a TenantAdmin.
pub open spec fn has_tenant_admin(us: Seq<User>) -> bool {
    exists|i: int| 0 <= i < us.len() && (#[trigger] us[i]).role == UserRole::TenantAdmin
}

/// `u` is the first administrator's record that initialisation creates for
/// identity `admin` in tenant `tenant_id` at time `now`.
pub open spec fn first_admin_record(u: User, admin: Seq<char>, tenant_id: Seq<char>, now: u64) -> bool {
    &&& u.id@ == admin
    &&& u.name@ == "TenantAdmin"@
    &&& u.email@ == "admin@"@ + tenant_id + ".edu"@
    &&& u.role == UserRole::TenantAdmin
    &&& u.tenant_id@ == tenant_id
    &&& u.created_at == now
    &&& u.updated_at == now
    &&& u.is_active
}

/// A course's instructor list is non-empty and names nobody twice.
pub open spec fn instructors_ok(c: Course) -> bool {
    &&& c.instructor_ids@.len() > 0
    &&& forall|a: int, b: int| 0 <= a < c.instructor_ids@.len() && 0 <= b < c.instructor_ids@.len() && a != b
        ==> (#[trigger] c.instructor_ids@[a])@ != (#[trigger] c.instructor_ids@[b])@
}

/// Every grade has a generated id whose number is below `n`.
pub open spec fn numbered_below(gs: Seq<Grade>, n: nat) -> bool {
    forall|i: int| 0 <= i < gs.len() ==> exists|t: nat, k: nat| k < n && #[trigger] new_grade_id(t, k) == (#[trigger] gs[i]).id@
}

/// What one tenant instance keeps: its identity, users, courses, grades,
/// quizzes and imported identity records, each keyed by id.
pub struct TenantState {
    data: Option<TenantData>,
    users: Vec<User>,
    courses: Vec<Course>,
    grades: Vec<Grade>,
    quizzes: Vec<Quiz>,
    pre_users: Vec<PreProvisionedUser>,
    next_grade: u64,
}

impl TenantState {
    pub closed spec fn data(&self) -> Option<TenantData> {
        self.data
    }

    pub closed spec fn users(&self) -> Seq<User> {
        self.users@
    }

    pub closed spec fn courses(&self) -> Seq<Course> {
        self.courses@
    }

    pub closed spec fn grades(&self) -> Seq<Grade> {
        self.grades@
    }

    pub closed spec fn quizzes(&self) -> Seq<Quiz> {
        self.quizzes@
    }

    pub closed spec fn pre_users(&self) -> Seq<PreProvisionedUser> {
        self.pre_users@
    }

    /// How many grades this tenant has numbered so far.
    pub closed spec fn grade_counter(&self) -> u64 {
        self.next_grade
    }

    /// The number the next grade gets.
    pub fn next_grade_number(&self) -> (r: u64)
        ensures
            r == self.grade_counter(),
    {
        self.next_grade
    }

    /// Every map has unique keys, and every stored grade respects its
    /// maximum (positive, at most a tenth of extra credit).
    pub open spec fn wf(&self) -> bool {
        &&& valid_grades(self.grades())
        &&& numbered_below(self.grades(), self.grade_counter() as nat)
        &&& forall|i: int| 0 <= i < self.courses().len() ==> instructors_ok(#[trigger] self.courses()[i])
        &&& unique_users(self.users())
        &&& unique_courses(self.courses())
        &&& unique_grades(self.grades())
        &&& unique_quizzes(self.quizzes())
        &&& unique_pre_users(self.pre_users())
    }

    /// A fresh, uninitialised instance.
    pub fn new() -> (r: TenantState)
        ensures
            r.wf(),
            r.data() is None,
            r.users().len() == 0,
            r.courses().len() == 0,
            r.grades().len() == 0,
            r.quizzes().len() == 0,
            r.pre_users().len() == 0,
            r.grade_counter() == 0,
    {
        TenantState {
            data: None,
            users: Vec::new(),
            courses: Vec::new(),
            grades: Vec::new(),
            quizzes: Vec::new(),
            pre_users: Vec::new(),
            next_grade: 0,
        }
    }

    /// An instance with the given identity and grade counter and no records.
    pub(crate) fn empty_with(data: Option<TenantData>, next_grade: u64) -> (r: TenantState)
        ensures
            r.wf(),
            r.data() == data,
            r.grade_counter() == next_grade,
            r.users().len() == 0,
            r.courses().len() == 0,
            r.grades().len() == 0,
            r.quizzes().len() == 0,
            r.pre_users().len() == 0,
    {
        TenantState {
            data,
            users: Vec::new(),
            courses: Vec::new(),
            grades: Vec::new(),
            quizzes: Vec::new(),
            pre_users: Vec::new(),
            next_grade,
        }
    }

    /// Stores a saved grade again; its id carries a number below the counter.
    pub(crate) fn push_saved_grade(&mut self, g: Grade, t: Ghost<nat>, k: Ghost<nat>)
        requires
            old(self).wf(),
            new_grade_id(t@, k@) == g.id@,
            k@ < old(self).grade_counter(),
            !grade_exists(old(self).grades(), g.id@),
            g.max_score > 0 && 10 * g.score <= 11 * g.max_score,
        ensures
            final(self).wf(),
            final(self).grades() == old(self).grades().push(g),
            final(self).grade_counter() == old(self).grade_counter(),
            final(self).data() == old(self).data(),
            final(self).users() == old(self).users(),
            final(self).courses() == old(self).courses(),
            final(self).quizzes() == old(self).quizzes(),
            final(self).pre_users() == old(self).pre_users(),
    {
        let ghost s = self.grades@;
        self.grades.push(g);
        assert forall|i: int| 0 <= i < self.grades@.len() implies (#[trigger] self.grades@[i]).max_score > 0 && 10 * self.grades@[i].score <= 11 * self.grades@[i].max_score by {
            if i < s.len() {
                assert(self.grades@[i] == s[i]);
            }
        }
        assert forall|i: int| 0 <= i < self.grades@.len() implies exists|t2: nat, k2: nat| k2 < self.next_grade as nat && #[trigger] new_grade_id(t2, k2) == (#[trigger] self.grades@[i]).id@ by {
            if i < s.len() {
                assert(self.grades@[i] == s[i]);
                let (t2, k2) = choose|t2: nat, k2: nat| k2 < self.next_grade as nat && #[trigger] new_grade_id(t2, k2) == s[i].id@;
                assert(new_grade_id(t2, k2) == self.grades@[i].id@);
            } else {
                assert(new_grade_id(t@, k@) == self.grades@[i].id@);
            }
        }
        assert forall|i: int, j: int| 0 <= i < self.grades@.len() && 0 <= j < self.grades@.len() && i != j implies (#[trigger] self.grades@[i]).id@ != (#[trigger] self.grades@[j]).id@ by {
            if i < s.len() && j < s.len() {
                assert(self.grades@[i] == s[i] && self.grades@[j] == s[j]);
            } else if i < s.len() {
                assert(self.grades@[i] == s[i]);
            } else {
                assert(self.grades@[j] == s[j]);
            }
        }
    }

    /// Records the tenant's id and first administrator. A second
    /// initialisation is refused: it means a deployment error.
    pub fn initialize(&mut self, tenant_id: String, admin_principal: Option<String>, now: u64) -> (r: LMSResult<()>)
        requires
            old(self).wf(),
        ensures
            final(self).wf(),
            r is Ok == (old(self).data() is None),
            r is Err ==> r->Err_0 is InitializationError && *final(self) == *old(self),
            r is Ok ==> final(self).data() == Some(
                (TenantData { tenant_id, admin_principal, is_initialized: true, created_at: now }),
            ),
            r is Ok && admin_principal is Some && !has_tenant_admin(old(self).users()) ==> {
                let a = admin_principal->Some_0@;
                &&& user_exists(final(self).users(), a)
                &&& final(self).users().len() >= old(self).users().len()
                &&& forall|k: int| 0 <= k < final(self).users().len() && (#[trigger] final(self).users()[k]).id@ == a
                    ==> first_admin_record(final(self).users()[k], a, tenant_id@, now)
                &&& forall|k: int| 0 <= k < old(self).users().len() && (#[trigger] old(self).users()[k]).id@ != a
                    ==> final(self).users()[k] == old(self).users()[k]
            },
            !(r is Ok && admin_principal is Some && !has_tenant_admin(old(self).users())) ==> final(self).users()
                == old(self).users(),
            final(self).courses() == old(self).courses(),
            final(self).grades() == old(self).grades(),
            final(self).quizzes() == old(self).quizzes(),
            final(self).pre_users() == old(self).pre_users(),
    {
        if self.data.is_some() {
            return Err(LMSError::InitializationError(text("Tenant already initialized")));
        }
        if let Some(a) = &admin_principal {
            if !self.any_tenant_admin() {
                let user = User {
                    id: a.clone(),
                    name: text("TenantAdmin"),
                    email: join3("admin@", tenant_id.as_str(), ".edu"),
                    role: UserRole::TenantAdmin,
                    tenant_id: tenant_id.clone(),
                    created_at: now,
                    updated_at: now,
                    is_active: true,
                };
                let ghost before = self.users();
                match self.find_user(a) {
                    Some(i) => {
                        self.replace_user(i, user);
                        assert(self.users()[i as int].id@ == a@);
                        assert forall|k: int| 0 <= k < self.users().len() && (#[trigger] self.users()[k]).id@ == a@
                            implies first_admin_record(self.users()[k], a@, tenant_id@, now) by {
                            if k != i {
                                assert(before[k].id@ == before[i as int].id@);
                            }
                        }
                    },
                    None => {
                        self.insert_user(user);
                        assert(self.users()[before.len() as int].id@ == a@);
                        assert forall|k: int| 0 <= k < self.users().len() && (#[trigger] self.users()[k]).id@ == a@
                            implies first_admin_record(self.users()[k], a@, tenant_id@, now) by {
                            if k < before.len() {
                                assert(before[k] == self.users()[k]);
                            }
                        }
                    },
                }
            }
        }
        self.data = Some(TenantData { tenant_id, admin_principal, is_initialized: true, created_at: now });
        Ok(())
    }

    /// Whether some user is a TenantAdmin.
    fn any_tenant_admin(&self) -> (r: bool)
        ensures
            r == has_tenant_admin(self.users()),
    {
        let mut i: usize = 0;
        while i < self.users.len()
            invariant
                i <= self.users@.len(),
                forall|k: int| 0 <= k < i ==> (#[trigger] self.users@[k]).role != UserRole::TenantAdmin,
            decreases self.users.len() - i,
        {
            if self.users[i].role == UserRole::TenantAdmin {
                return true;
            }
            i += 1;
        }
        false
    }

    /// The tenant's identity, if initialised.
    pub fn tenant_data(&self) -> (r: &Option<TenantData>)
        ensures
            *r == self.data(),
    {
        &self.data
    }

    pub fn user_records(&self) -> (r: &Vec<User>)
        ensures
            r@ == self.users(),
    {
        &self.users
    }

    pub fn course_records(&self) -> (r: &Vec<Course>)
        ensures
            r@ == self.courses(),
    {
        &self.courses
    }

    pub fn grade_records(&self) -> (r: &Vec<Grade>)
        ensures
            r@ == self.grades(),
    {
        &self.grades
    }

    pub fn quiz_records(&self) -> (r: &Vec<Quiz>)
        ensures
            r@ == self.quizzes(),
    {
        &self.quizzes
    }

    pub fn pre_user_records(&self) -> (r: &Vec<PreProvisionedUser>)
        ensures
            r@ == self.pre_users(),
    {
        &self.pre_users
    }

    /// Index of the user `id`.
    pub fn find_user(&self, id: &String) -> (r: Option<usize>)
        ensures
            match r {
                Some(i) => i < self.users().len() && self.users()[i as int].id@ == id@,
                None => !user_exists(self.users(), id@),
            },
    {
        let mut i: usize = 0;
        while i < self.users.len()
            invariant
                i <= self.users@.len(),
                forall|k: int| 0 <= k < i ==> (#[trigger] self.users@[k]).id@ != id@,
            decreases self.users.len() - i,
        {
            if self.users[i].id == *id {
                return Some(i);
            }
            i += 1;
        }
        None
    }

    /// Index of the course `id`.
    pub fn find_course(&self, id: &String) -> (r: Option<usize>)
        ensures
            match r {
                Some(i) => i < self.courses().len() && self.courses()[i as int].id@ == id@,
                None => !course_exists(self.courses(), id@),
            },
    {
        let mut i: usize = 0;
        while i < self.courses.len()
            invariant
                i <= self.courses@.len(),
                forall|k: int| 0 <= k < i ==> (#[trigger] self.courses@[k]).id@ != id@,
            decreases self.courses.len() - i,
        {
            if self.courses[i].id == *id {
                return Some(i);
            }
            i += 1;
        }
        None
    }

    /// Index of the grade `id`.
    pub fn find_grade(&self, id: &String) -> (r: Option<usize>)
        ensures
            match r {
                Some(i) => i < self.grades().len() && self.grades()[i as int].id@ == id@,
                None => !grade_exists(self.grades(), id@),
            },
    {
        let mut i: usize = 0;
        while i < self.grades.len()
            invariant
                i <= self.grades@.len(),
                forall|k: int| 0 <= k < i ==> (#[trigger] self.grades@[k]).id@ != id@,
            decreases self.grades.len() - i,
        {
            if self.grades[i].id == *id {
                return Some(i);
            }
            i += 1;
        }
        None
    }

    /// Index of the quiz `id`.
    pub fn find_quiz(&self, id: &String) -> (r: Option<usize>)
        ensures
            match r {
                Some(i) => i < self.quizzes().len() && self.quizzes()[i as int].id@ == id@,
                None => !quiz_exists(self.quizzes(), id@),
            },
    {
        let mut i: usize = 0;
        while i < self.quizzes.len()
            invariant
                i <= self.quizzes@.len(),
                forall|k: int| 0 <= k < i ==> (#[trigger] self.quizzes@[k]).id@ != id@,
            decreases self.quizzes.len() - i,
        {
            if self.quizzes[i].id == *id {
                return Some(i);
            }
            i += 1;
        }
        None
    }

    /// Index of the imported record `id`.
    pub fn find_pre_user(&self, id: &String) -> (r: Option<usize>)
        ensures
            match r {
                Some(i) => i < self.pre_users().len() && self.pre_users()[i as int].university_id@ == id@,
                None => !pre_user_exists(self.pre_users(), id@),
            },
    {
        let mut i: usize = 0;
        while i < self.pre_users.len()
            invariant
                i <= self.pre_users@.len(),
                forall|k: int| 0 <= k < i ==> (#[trigger] self.pre_users@[k]).university_id@ != id@,
            decreases self.pre_users.len() - i,
        {
            if self.pre_users[i].university_id == *id {
                return Some(i);
            }
            i += 1;
        }
        None
    }

    /// Stores a new user.
    pub(crate) fn insert_user(&mut self, u: User)
        requires
            old(self).wf(),
            !user_exists(old(self).users(), u.id@),
        ensures
            final(self).wf(),
            final(self).users() == old(self).users().push(u),
            final(self).data() == old(self).data(),
            final(self).grade_counter() == old(self).grade_counter(),
            final(self).courses() == old(self).courses(),
            final(self).grades() == old(self).grades(),
            final(self).quizzes() == old(self).quizzes(),
            final(self).pre_users() == old(self).pre_users(),
    {
        let ghost s = self.users@;
        self.users.push(u);
        assert forall|i: int, j: int| 0 <= i < self.users@.len() && 0 <= j < self.users@.len() && i != j implies (#[trigger] self.users@[i]).id@ != (#[trigger] self.users@[j]).id@ by {
            if i < s.len() && j < s.len() {
                assert(self.users@[i] == s[i] && self.users@[j] == s[j]);
            } else if i < s.len() {
                assert(self.users@[i] == s[i]);
            } else {
                assert(self.users@[j] == s[j]);
            }
        }
    }

    /// Replaces the user at index `i` by `u`, which has the same id.
    pub(crate) fn replace_user(&mut self, i: usize, u: User)
        requires
            old(self).wf(),
            i < old(self).users().len(),
            u.id@ == old(self).users()[i as int].id@,
        ensures
            final(self).wf(),
            final(self).users() == old(self).users().update(i as int, u),
            final(self).data() == old(self).data(),
            final(self).grade_counter() == old(self).grade_counter(),
            final(self).courses() == old(self).courses(),
            final(self).grades() == old(self).grades(),
            final(self).quizzes() == old(self).quizzes(),
            final(self).pre_users() == old(self).pre_users(),
    {
        let ghost s = self.users@;
        self.users.set(i, u);
        assert forall|a: int, b: int| 0 <= a < self.users@.len() && 0 <= b < self.users@.len() && a != b implies (#[trigger] self.users@[a]).id@ != (#[trigger] self.users@[b]).id@ by {
            assert(self.users@[a].id@ == s[a].id@ && self.users@[b].id@ == s[b].id@);
        }
    }

    /// Stores a new course.
    pub(crate) fn insert_course(&mut self, c: Course)
        requires
            old(self).wf(),
            !course_exists(old(self).courses(), c.id@),
            instructors_ok(c),
        ensures
            final(self).wf(),
            final(self).courses() == old(self).courses().push(c),
            final(self).data() == old(self).data(),
            final(self).grade_counter() == old(self).grade_counter(),
            final(self).users() == old(self).users(),
            final(self).grades() == old(self).grades(),
            final(self).quizzes() == old(self).quizzes(),
            final(self).pre_users() == old(self).pre_users(),
    {
        let ghost s = self.courses@;
        self.courses.push(c);
        assert forall|i: int| 0 <= i < self.courses@.len() implies instructors_ok(#[trigger] self.courses@[i]) by {
            if i < s.len() {
                assert(self.courses@[i] == s[i]);
            }
        }
        assert forall|i: int, j: int| 0 <= i < self.courses@.len() && 0 <= j < self.courses@.len() && i != j implies (#[trigger] self.courses@[i]).id@ != (#[trigger] self.courses@[j]).id@ by {
            if i < s.len() && j < s.len() {
                assert(self.courses@[i] == s[i] && self.courses@[j] == s[j]);
            } else if i < s.len() {
                assert(self.courses@[i] == s[i]);
            } else {
                assert(self.courses@[j] == s[j]);
            }
        }
    }

    /// Replaces the course at index `i` by `c`, which has the same id.
    pub(crate) fn replace_course(&mut self, i: usize, c: Course)
        requires
            old(self).wf(),
            i < old(self).courses().len(),
            c.id@ == old(self).courses()[i as int].id@,
            instructors_ok(c),
        ensures
            final(self).wf(),
            final(self).courses() == old(self).courses().update(i as int, c),
            final(self).data() == old(self).data(),
            final(self).grade_counter() == old(self).grade_counter(),
            final(self).users() == old(self).users(),
            final(self).grades() == old(self).grades(),
            final(self).quizzes() == old(self).quizzes(),
            final(self).pre_users() == old(self).pre_users(),
    {
        let ghost s = self.courses@;
        self.courses.set(i, c);
        assert forall|a: int| 0 <= a < self.courses@.len() implies instructors_ok(#[trigger] self.courses@[a]) by {
            if a != i {
                assert(self.courses@[a] == s[a]);
            }
        }
        assert forall|a: int, b: int| 0 <= a < self.courses@.len() && 0 <= b < self.courses@.len() && a != b implies (#[trigger] self.courses@[a]).id@ != (#[trigger] self.courses@[b]).id@ by {
            assert(self.courses@[a].id@ == s[a].id@ && self.courses@[b].id@ == s[b].id@);
        }
    }

    /// Stores a new grade, whose id is the next generated one.
    pub(crate) fn insert_grade(&mut self, g: Grade, now: u64)
        requires
            old(self).wf(),
            old(self).grade_counter() < u64::MAX,
            g.id@ == new_grade_id(now as nat, old(self).grade_counter() as nat),
            g.max_score > 0 && 10 * g.score <= 11 * g.max_score,
        ensures
            final(self).wf(),
            final(self).grades() == old(self).grades().push(g),
            final(self).grade_counter() == old(self).grade_counter() + 1,
            final(self).data() == old(self).data(),
            final(self).users() == old(self).users(),
            final(self).courses() == old(self).courses(),
            final(self).quizzes() == old(self).quizzes(),
            final(self).pre_users() == old(self).pre_users(),
    {
        let ghost s = self.grades@;
        let ghost c = self.next_grade as nat;
        assert forall|i: int| 0 <= i < s.len() implies s[i].id@ != g.id@ by {
            let (t, k) = choose|t: nat, k: nat| k < c && #[trigger] new_grade_id(t, k) == s[i].id@;
            if s[i].id@ == g.id@ {
                lemma_grade_id_injective(t, k, now as nat, c);
            }
        }
        self.grades.push(g);
        self.next_grade = self.next_grade + 1;
        assert forall|i: int| 0 <= i < self.grades@.len() implies (#[trigger] self.grades@[i]).max_score > 0 && 10 * self.grades@[i].score <= 11 * self.grades@[i].max_score by {
            if i < s.len() {
                assert(self.grades@[i] == s[i]);
            }
        }
        assert forall|i: int| 0 <= i < self.grades@.len() implies exists|t: nat, k: nat| k < self.next_grade as nat && #[trigger] new_grade_id(t, k) == (#[trigger] self.grades@[i]).id@ by {
            if i < s.len() {
                assert(self.grades@[i] == s[i]);
                let (t, k) = choose|t: nat, k: nat| k < c && #[trigger] new_grade_id(t, k) == s[i].id@;
                assert(new_grade_id(t, k) == self.grades@[i].id@);
            } else {
                assert(new_grade_id(now as nat, c) == self.grades@[i].id@);
            }
        }
        assert forall|i: int, j: int| 0 <= i < self.grades@.len() && 0 <= j < self.grades@.len() && i != j implies (#[trigger] self.grades@[i]).id@ != (#[trigger] self.grades@[j]).id@ by {
            if i < s.len() && j < s.len() {
                assert(self.grades@[i] == s[i] && self.grades@[j] == s[j]);
            } else if i < s.len() {
                assert(self.grades@[i] == s[i]);
            } else {
                assert(self.grades@[j] == s[j]);
            }
        }
    }

    /// Replaces the grade at index `i` by `g`, which has the same id.
    pub(crate) fn replace_grade(&mut self, i: usize, g: Grade)
        requires
            old(self).wf(),
            i < old(self).grades().len(),
            g.id@ == old(self).grades()[i as int].id@,
            g.max_score > 0 && 10 * g.score <= 11 * g.max_score,
        ensures
            final(self).wf(),
            final(self).grades() == old(self).grades().update(i as int, g),
            final(self).grade_counter() == old(self).grade_counter(),
            final(self).data() == old(self).data(),
            final(self).users() == old(self).users(),
            final(self).courses() == old(self).courses(),
            final(self).quizzes() == old(self).quizzes(),
            final(self).pre_users() == old(self).pre_users(),
    {
        let ghost s = self.grades@;
        self.grades.set(i, g);
        assert forall|a: int| 0 <= a < self.grades@.len() implies exists|t: nat, k: nat| k < self.next_grade as nat && #[trigger] new_grade_id(t, k) == (#[trigger] self.grades@[a]).id@ by {
            let (t, k) = choose|t: nat, k: nat| k < self.next_grade as nat && #[trigger] new_grade_id(t, k) == s[a].id@;
            assert(new_grade_id(t, k) == self.grades@[a].id@);
        }
        assert forall|a: int| 0 <= a < self.grades@.len() implies (#[trigger] self.grades@[a]).max_score > 0 && 10 * self.grades@[a].score <= 11 * self.grades@[a].max_score by {
            if a != i {
                assert(self.grades@[a] == s[a]);
            }
        }
        assert forall|a: int, b: int| 0 <= a < self.grades@.len() && 0 <= b < self.grades@.len() && a != b implies (#[trigger] self.grades@[a]).id@ != (#[trigger] self.grades@[b]).id@ by {
            assert(self.grades@[a].id@ == s[a].id@ && self.grades@[b].id@ == s[b].id@);
        }
    }

    /// Deletes the grade at index `i`.
    pub(crate) fn delete_grade_at(&mut self, i: usize)
        requires
            old(self).wf(),
            i < old(self).grades().len(),
        ensures
            final(self).wf(),
            final(self).grades() == old(self).grades().remove(i as int),
            final(self).grade_counter() == old(self).grade_counter(),
            final(self).data() == old(self).data(),
            final(self).users() == old(self).users(),
            final(self).courses() == old(self).courses(),
            final(self).quizzes() == old(self).quizzes(),
            final(self).pre_users() == old(self).pre_users(),
    {
        let ghost s = self.grades@;
        self.grades.remove(i);
        assert forall|a: int| 0 <= a < self.grades@.len() implies exists|t: nat, k: nat| k < self.next_grade as nat && #[trigger] new_grade_id(t, k) == (#[trigger] self.grades@[a]).id@ by {
            let a0 = if a < i { a } else { a + 1 };
            assert(self.grades@[a] == s[a0]);
            let (t, k) = choose|t: nat, k: nat| k < self.next_grade as nat && #[trigger] new_grade_id(t, k) == s[a0].id@;
            assert(new_grade_id(t, k) == self.grades@[a].id@);
        }
        assert forall|a: int| 0 <= a < self.grades@.len() implies (#[trigger] self.grades@[a]).max_score > 0 && 10 * self.grades@[a].score <= 11 * self.grades@[a].max_score by {
            let a0 = if a < i { a } else { a + 1 };
            assert(self.grades@[a] == s[a0]);
        }
        assert forall|a: int, b: int| 0 <= a < self.grades@.len() && 0 <= b < self.grades@.len() && a != b implies (#[trigger] self.grades@[a]).id@ != (#[trigger] self.grades@[b]).id@ by {
            let a0 = if a < i { a } else { a + 1 };
            let b0 = if b < i { b } else { b + 1 };
            assert(self.grades@[a] == s[a0] && self.grades@[b] == s[b0]);
        }
    }

    /// Stores a new quiz.
    pub(crate) fn insert_quiz(&mut self, q: Quiz)
        requires
            old(self).wf(),
            !quiz_exists(old(self).quizzes(), q.id@),
        ensures
            final(self).wf(),
            final(self).quizzes() == old(self).quizzes().push(q),
            final(self).data() == old(self).data(),
            final(self).grade_counter() == old(self).grade_counter(),
            final(self).users() == old(self).users(),
            final(self).courses() == old(self).courses(),
            final(self).grades() == old(self).grades(),
            final(self).pre_users() == old(self).pre_users(),
    {
        let ghost s = self.quizzes@;
        self.quizzes.push(q);
        assert forall|i: int, j: int| 0 <= i < self.quizzes@.len() && 0 <= j < self.quizzes@.len() && i != j implies (#[trigger] self.quizzes@[i]).id@ != (#[trigger] self.quizzes@[j]).id@ by {
            if i < s.len() && j < s.len() {
                assert(self.quizzes@[i] == s[i] && self.quizzes@[j] == s[j]);
            } else if i < s.len() {
                assert(self.quizzes@[i] == s[i]);
            } else {
                assert(self.quizzes@[j] == s[j]);
            }
        }
    }

    /// Stores a new imported record.
    pub(crate) fn insert_pre_user(&mut self, p: PreProvisionedUser)
        requires
            old(self).wf(),
            !pre_user_exists(old(self).pre_users(), p.university_id@),
        ensures
            final(self).wf(),
            final(self).pre_users() == old(self).pre_users().push(p),
            final(self).data() == old(self).data(),
            final(self).grade_counter() == old(self).grade_counter(),
            final(self).users() == old(self).users(),
            final(self).courses() == old(self).courses(),
            final(self).grades() == old(self).grades(),
            final(self).quizzes() == old(self).quizzes(),
    {
        let ghost s = self.pre_users@;
        self.pre_users.push(p);
        assert forall|i: int, j: int| 0 <= i < self.pre_users@.len() && 0 <= j < self.pre_users@.len() && i != j implies (#[trigger] self.pre_users@[i]).university_id@ != (#[trigger] self.pre_users@[j]).university_id@ by {
            if i < s.len() && j < s.len() {
                assert(self.pre_users@[i] == s[i] && self.pre_users@[j] == s[j]);
            } else if i < s.len() {
                assert(self.pre_users@[i] == s[i]);
            } else {
                assert(self.pre_users@[j] == s[j]);
            }
        }
    }

    /// Deletes the imported record at index `i`.
    pub(crate) fn delete_pre_user_at(&mut self, i: usize)
        requires
            old(self).wf(),
            i < old(self).pre_users().len(),
        ensures
            final(self).wf(),
            final(self).pre_users() == old(self).pre_users().remove(i as int),
            final(self).data() == old(self).data(),
            final(self).grade_counter() == old(self).grade_counter(),
            final(self).users() == old(self).users(),
            final(self).courses() == old(self).courses(),
            final(self).grades() == old(self).grades(),
            final(self).quizzes() == old(self).quizzes(),
    {
        let ghost s = self.pre_users@;
        self.pre_users.remove(i);
        assert forall|a: int, b: int| 0 <= a < self.pre_users@.len() && 0 <= b < self.pre_users@.len() && a != b implies (#[trigger] self.pre_users@[a]).university_id@ != (#[trigger] self.pre_users@[b]).university_id@ by {
            let a0 = if a < i { a } else { a + 1 };
            let b0 = if b < i { b } else { b + 1 };
            assert(self.pre_users@[a] == s[a0] && self.pre_users@[b] == s[b0]);
        }
    }

    /// Replaces the imported record at index `i` by `p`, which has the same
    /// university id.
    pub(crate) fn replace_pre_user(&mut self, i: usize, p: PreProvisionedUser)
        requires
            old(self).wf(),
            i < old(self).pre_users().len(),
            p.university_id@ == old(self).pre_users()[i as int].university_id@,
        ensures
            final(self).wf(),
            final(self).pre_users() == old(self).pre_users().update(i as int, p),
            final(self).data() == old(self).data(),
            final(self).grade_counter() == old(self).grade_counter(),
            final(self).users() == old(self).users(),
            final(self).courses() == old(self).courses(),
            final(self).grades() == old(self).grades(),
            final(self).quizzes() == old(self).quizzes(),
    {
        let ghost s = self.pre_users@;
        self.pre_users.set(i, p);
        assert forall|a: int, b: int| 0 <= a < self.pre_users@.len() && 0 <= b < self.pre_users@.len() && a != b implies (#[trigger] self.pre_users@[a]).university_id@ != (#[trigger] self.pre_users@[b]).university_id@ by {
            assert(self.pre_users@[a].university_id@ == s[a].university_id@ && self.pre_users@[b].university_id@ == s[b].university_id@);
        }
    }
}

/// The tenant's id; an error until the instance is initialised.
pub fn get_tenant_id(state: &TenantState) -> (r: LMSResult<String>)
    ensures
        r is Ok == (state.data() is Some),
        r is Ok ==> r->Ok_0 == state.data()->Some_0.tenant_id,
        r is Err ==> r->Err_0 is InitializationError,
{
    match state.tenant_data() {
        Some(d) => Ok(d.tenant_id.clone()),
        None => Err(LMSError::InitializationError(text("Tenant not initialized"))),
    }
}

} // verus!
