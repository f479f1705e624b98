use vstd::prelude::*;
use vstd::string::StringExecFns;
use crate::course::{contains_text, lists, Course};
use crate::error::{join2, join3, text, LMSError, LMSResult};
use crate::pre_provision::{
    after_link, after_verify, can_link, imported_from, role_named, row_ok, ImportStats, PreProvisionStatus, PreProvisionedUser,
    UniversityImportRecord,
};
use crate::user::UserRole;
use crate::utils::{decimal, push_decimal};
use crate::rbac::{active_caller, has_admin_rights, is_admin_compat};
use crate::tenant::{pre_user_exists, unique_pre_users, user_exists, TenantState};
use crate::user::{copy_strings, is_admin_role, User};
use crate::utils::{code_text, lowercase, lowercase_text, trimmed};

verus! {

/// The imported record whose university id is `id`, if any.
pub open spec fn lookup_pre_user(ps: Seq<PreProvisionedUser>, id: Seq<char>) -> Option<PreProvisionedUser> {
    if pre_user_exists(ps, id) {
        Some(ps[choose|i: int| 0 <= i < ps.len() && (#[trigger] ps[i]).university_id@ == id])
    } else {
        None
    }
}

pub proof fn lemma_pre_user_at(ps: Seq<PreProvisionedUser>, id: Seq<char>, i: int)
    requires
        unique_pre_users(ps),
        0 <= i < ps.len(),
        ps[i].university_id@ == id,
    ensures
        lookup_pre_user(ps, id) == Some(ps[i]),
{
    let j = choose|j: int| 0 <= j < ps.len() && (#[trigger] ps[j]).university_id@ == id;
    assert(i == j);
}

/// Only the imported records changed, from `before` to `after`.
pub open spec fn only_pre_users_changed(before: TenantState, after: TenantState) -> bool {
    &&& after.wf()
    &&& after.data() == before.data()
    &&& after.users() == before.users()
    &&& after.courses() == before.courses()
    &&& after.grades() == before.grades()
    &&& after.quizzes() == before.quizzes()
}

/// `after` is `before` with the record `id` replaced by `p`.
pub open spec fn pre_user_replaced(before: Seq<PreProvisionedUser>, after: Seq<PreProvisionedUser>, id: Seq<char>, p: PreProvisionedUser) -> bool {
    &&& after.len() == before.len()
    &&& forall|k: int| 0 <= k < before.len() ==> #[trigger] after[k] == (if before[k].university_id@ == id { p } else { before[k] })
}

proof fn lemma_pre_replaced(before: Seq<PreProvisionedUser>, after: Seq<PreProvisionedUser>, i: int, id: Seq<char>, p: PreProvisionedUser)
    requires
        unique_pre_users(before),
        0 <= i < before.len(),
        before[i].university_id@ == id,
        after == before.update(i, p),
    ensures
        pre_user_replaced(before, after, id, p),
{
    assert forall|k: int| 0 <= k < before.len() implies #[trigger] after[k] == (if before[k].university_id@ == id { p } else { before[k] }) by {
        if k != i && before[k].university_id@ == id {
            assert(before[k].university_id@ == before[i].university_id@);
        }
    }
}

/// Whether two emails match, ignoring case.
pub open spec fn same_email(a: Seq<char>, b: Seq<char>) -> bool {
    lowercase(a) == lowercase(b)
}

fn emails_match(a: &str, b: &str) -> (r: bool)
    ensures
        r == same_email(a@, b@),
{
    lowercase_text(a) == lowercase_text(b)
}

/// The university id a single imported row ends up with: its own, or one
/// made of the tenant, its role and the time when it has none.
pub open spec fn single_id(r: UniversityImportRecord, tenant_id: Seq<char>, now: u64) -> Seq<char> {
    if r.university_id@.len() == 0 {
        generated_id(tenant_id, r.role@, decimal((now % 10000) as nat))
    } else {
        r.university_id@
    }
}

/// Imports one row of a university's records, as an active Admin or
/// TenantAdmin. A row without a university id gets one made of the tenant,
/// its role and the time. The row must be valid and its id new.
pub fn import_single_record(state: &mut TenantState, caller: &Option<String>, record: UniversityImportRecord, now: u64) -> (r: LMSResult<String>)
    requires
        old(state).wf(),
    ensures
        only_pre_users_changed(*old(state), *final(state)),
        r is Err ==> final(state).pre_users() == old(state).pre_users(),
        r is Ok == (has_admin_rights(*old(state), *caller)
            && old(state).data() is Some && row_ok(single_id(record, old(state).data()->Some_0.tenant_id@, now), record)
            && !pre_user_exists(old(state).pre_users(), trimmed(single_id(record, old(state).data()->Some_0.tenant_id@, now)))),
        r is Ok ==> final(state).pre_users().drop_last() == old(state).pre_users(),
        r is Ok ==> final(state).pre_users().len() == old(state).pre_users().len() + 1,
        r is Ok ==> final(state).pre_users().last().university_id@ == trimmed(single_id(record, old(state).data()->Some_0.tenant_id@, now)),
        r is Ok ==> final(state).pre_users().last().status == PreProvisionStatus::Imported,
        r is Ok ==> imported_from(final(state).pre_users().last(), record, single_id(record, old(state).data()->Some_0.tenant_id@, now), now),
{
    is_admin_compat(state, caller)?;
    let tenant_id = crate::tenant::get_tenant_id(state)?;
    let name = record.name.clone();
    let mut record = record;
    if record.university_id.as_str().unicode_len() == 0 {
        let mut id = join3(tenant_id.as_str(), "_", role_prefix(record.role.as_str()));
        push_decimal(&mut id, now % 10000);
        record.university_id = id;
    }
    let user = PreProvisionedUser::from_import_record(record, tenant_id.as_str(), now)?;
    if state.find_pre_user(&user.university_id).is_some() {
        return Err(LMSError::ValidationError(join2("University ID already exists: ", user.university_id.as_str())));
    }
    let id = user.university_id.clone();
    let ghost before = state.pre_users();
    state.insert_pre_user(user);
    assert(state.pre_users().drop_last() =~= before);
    let mut msg = join3("Successfully imported user: ", name.as_str(), " (ID: ");
    msg.append(id.as_str());
    msg.append(")");
    Ok(msg)
}

/// Imports a row given field by field; its university id is generated.
pub fn import_user_simple(
    state: &mut TenantState,
    caller: &Option<String>,
    email: String,
    name: String,
    role: String,
    department: Option<String>,
    year_of_study: Option<u32>,
    course_codes: String,
    now: u64,
) -> (r: LMSResult<String>)
    requires
        old(state).wf(),
    ensures
        only_pre_users_changed(*old(state), *final(state)),
        r is Err ==> final(state).pre_users() == old(state).pre_users(),
        r is Ok ==> final(state).pre_users().len() == old(state).pre_users().len() + 1,
{
    let record = UniversityImportRecord { university_id: String::new(), email, name, role, department, year_of_study, course_codes };
    import_single_record(state, caller, record, now)
}

/// Every imported record, for an active Admin or TenantAdmin.
pub fn list_pre_provisioned_users(state: &TenantState, caller: &Option<String>) -> (r: LMSResult<Vec<PreProvisionedUser>>)
    requires
        state.wf(),
    ensures
        r is Ok == (has_admin_rights(*state, *caller)),
        r is Ok ==> r->Ok_0@.len() == state.pre_users().len(),
        r is Ok ==> forall|k: int| 0 <= k < r->Ok_0@.len() ==> (#[trigger] r->Ok_0@[k]).university_id == state.pre_users()[k].university_id
            && r->Ok_0@[k].status == state.pre_users()[k].status,
{
    is_admin_compat(state, caller)?;
    let ps = state.pre_user_records();
    let mut r: Vec<PreProvisionedUser> = Vec::new();
    let mut i: usize = 0;
    while i < ps.len()
        invariant
            i <= ps@.len(),
            r@.len() == i,
            forall|k: int| 0 <= k < i ==> (#[trigger] r@[k]).university_id == ps@[k].university_id && r@[k].status == ps@[k].status,
        decreases ps.len() - i,
    {
        r.push(copy_pre_user(&ps[i]));
        i += 1;
    }
    Ok(r)
}

/// A field-by-field copy (the course codes compared by content).
pub fn copy_pre_user(p: &PreProvisionedUser) -> (r: PreProvisionedUser)
    ensures
        r == (PreProvisionedUser { course_codes: r.course_codes, ..*p }),
        r.course_codes@ == p.course_codes@,
{
    PreProvisionedUser {
        university_id: p.university_id.clone(),
        email: p.email.clone(),
        name: p.name.clone(),
        role: p.role,
        department: crate::grade::copy_opt(&p.department),
        year_of_study: p.year_of_study,
        course_codes: copy_strings(&p.course_codes),
        created_at: p.created_at,
        ii_principal: crate::grade::copy_opt(&p.ii_principal),
        is_verified: p.is_verified,
        verification_code: crate::grade::copy_opt(&p.verification_code),
        verification_expires: p.verification_expires,
        status: p.status,
    }
}

/// The imported record `university_id`, for an active Admin or TenantAdmin.
pub fn get_pre_provisioned_user(state: &TenantState, caller: &Option<String>, university_id: &str) -> (r: LMSResult<PreProvisionedUser>)
    requires
        state.wf(),
    ensures
        r is Ok == (has_admin_rights(*state, *caller)
            && pre_user_exists(state.pre_users(), university_id@)),
        r is Ok ==> r->Ok_0 == (PreProvisionedUser { course_codes: r->Ok_0.course_codes, ..lookup_pre_user(state.pre_users(), university_id@)->Some_0 }),
{
    is_admin_compat(state, caller)?;
    let id = String::from_str(university_id);
    match state.find_pre_user(&id) {
        Some(i) => {
            proof {
                lemma_pre_user_at(state.pre_users(), id@, i as int);
            }
            Ok(copy_pre_user(&state.pre_user_records()[i]))
        },
        None => Err(LMSError::NotFound(join2("Pre-provisioned user not found: ", university_id))),
    }
}

/// Issues a verification code for record `university_id`, whose email must
/// match `email` (ignoring case) and which must not be verified yet. The
/// code is returned for delivery by email.
pub fn request_email_verification(state: &mut TenantState, university_id: &str, email: &str, now: u64) -> (r: LMSResult<String>)
    requires
        old(state).wf(),
    ensures
        only_pre_users_changed(*old(state), *final(state)),
        r is Err ==> final(state).pre_users() == old(state).pre_users(),
        r is Ok == (pre_user_exists(old(state).pre_users(), university_id@) && {
            let p = lookup_pre_user(old(state).pre_users(), university_id@)->Some_0;
            same_email(p.email@, email@) && !p.is_verified
        }),
        !pre_user_exists(old(state).pre_users(), university_id@) ==> r is Err && r->Err_0 is NotFound,
        r is Ok ==> r->Ok_0@ == code_text(now as nat, 6),
        r is Ok ==> {
            let p = lookup_pre_user(final(state).pre_users(), university_id@)->Some_0;
            &&& pre_user_replaced(old(state).pre_users(), final(state).pre_users(), university_id@, p)
            &&& p.status == PreProvisionStatus::PendingVerification
            &&& p.verification_code is Some && p.verification_code->Some_0@ == r->Ok_0@
        },
{
    let id = String::from_str(university_id);
    let i = match state.find_pre_user(&id) {
        Some(i) => i,
        None => {
            return Err(LMSError::NotFound(text("University ID not found in pre-provisioned records")));
        },
    };
    proof {
        lemma_pre_user_at(state.pre_users(), id@, i as int);
    }
    let mut p = copy_pre_user(&state.pre_user_records()[i]);
    if !emails_match(p.email.as_str(), email) {
        return Err(LMSError::ValidationError(text("Email does not match university records")));
    }
    if p.is_verified {
        return Err(LMSError::ValidationError(text("Email already verified")));
    }
    let code = p.generate_verification_code(now);
    let ghost np = p;
    let ghost before = state.pre_users();
    state.replace_pre_user(i, p);
    proof {
        lemma_pre_replaced(before, state.pre_users(), i as int, university_id@, np);
        lemma_pre_user_at(state.pre_users(), university_id@, i as int);
    }
    Ok(code)
}

/// Checks the code of record `university_id` at time `now`, with the
/// outcome of `PreProvisionedUser::verify_code`; the email must match.
pub fn verify_email(state: &mut TenantState, university_id: &str, email: &str, verification_code: &str, now: u64) -> (r: LMSResult<String>)
    requires
        old(state).wf(),
    ensures
        only_pre_users_changed(*old(state), *final(state)),
        !pre_user_exists(old(state).pre_users(), university_id@) ==> r is Err && r->Err_0 is NotFound
            && final(state).pre_users() == old(state).pre_users(),
        r is Ok == (pre_user_exists(old(state).pre_users(), university_id@) && {
            let p = lookup_pre_user(old(state).pre_users(), university_id@)->Some_0;
            same_email(p.email@, email@) && p.verification_code is Some && p.verification_code->Some_0@ == verification_code@
                && p.verification_expires is Some && now <= p.verification_expires->Some_0
        }),
        r is Ok ==> {
            let p = lookup_pre_user(old(state).pre_users(), university_id@)->Some_0;
            &&& same_email(p.email@, email@)
            &&& p.verification_code is Some && p.verification_code->Some_0@ == verification_code@
            &&& p.verification_expires is Some && now <= p.verification_expires->Some_0
            &&& pre_user_replaced(old(state).pre_users(), final(state).pre_users(), university_id@, (PreProvisionedUser {
                course_codes: lookup_pre_user(final(state).pre_users(), university_id@)->Some_0.course_codes,
                ..after_verify(p)
            }))
            &&& lookup_pre_user(final(state).pre_users(), university_id@)->Some_0.course_codes@ == p.course_codes@
        },
        pre_user_exists(old(state).pre_users(), university_id@) && {
            let p = lookup_pre_user(old(state).pre_users(), university_id@)->Some_0;
            same_email(p.email@, email@) && p.verification_code is Some && p.verification_expires is Some
                && now <= p.verification_expires->Some_0 && p.verification_code->Some_0@ != verification_code@
        } ==> r is Err && r->Err_0 is ValidationError && final(state).pre_users() == old(state).pre_users(),
        pre_user_exists(old(state).pre_users(), university_id@) && {
            let p = lookup_pre_user(old(state).pre_users(), university_id@)->Some_0;
            same_email(p.email@, email@) && p.verification_code is Some && p.verification_expires is Some
                && now > p.verification_expires->Some_0
        } ==> r is Err && r->Err_0 is ValidationError && pre_user_replaced(old(state).pre_users(), final(state).pre_users(), university_id@, (PreProvisionedUser {
            status: PreProvisionStatus::Expired,
            course_codes: lookup_pre_user(final(state).pre_users(), university_id@)->Some_0.course_codes,
            ..lookup_pre_user(old(state).pre_users(), university_id@)->Some_0
        })) && lookup_pre_user(final(state).pre_users(), university_id@)->Some_0.course_codes@
            == lookup_pre_user(old(state).pre_users(), university_id@)->Some_0.course_codes@,
{
    let id = String::from_str(university_id);
    let i = match state.find_pre_user(&id) {
        Some(i) => i,
        None => {
            return Err(LMSError::NotFound(text("University ID not found")));
        },
    };
    proof {
        lemma_pre_user_at(state.pre_users(), id@, i as int);
    }
    let mut p = copy_pre_user(&state.pre_user_records()[i]);
    if !emails_match(p.email.as_str(), email) {
        return Err(LMSError::ValidationError(text("Email does not match")));
    }
    let expired = p.verification_code.is_some() && match p.verification_expires {
        Some(e) => now > e,
        None => false,
    };
    let outcome = p.verify_code(verification_code, now);
    match outcome {
        Ok(()) => {
            let ghost np = p;
            let ghost before = state.pre_users();
            state.replace_pre_user(i, p);
            proof {
                lemma_pre_replaced(before, state.pre_users(), i as int, university_id@, np);
                lemma_pre_user_at(state.pre_users(), university_id@, i as int);
            }
            Ok(text("Email verified successfully. You can now link your Internet Identity."))
        },
        Err(e) => {
            if expired {
                let ghost np = p;
                let ghost before = state.pre_users();
                state.replace_pre_user(i, p);
                proof {
                    lemma_pre_replaced(before, state.pre_users(), i as int, university_id@, np);
                    lemma_pre_user_at(state.pre_users(), university_id@, i as int);
                }
            }
            Err(e)
        },
    }
}

/// Whether the course `c` enrols `uid` once `codes` have been applied to
/// the course `before`: added when its id is among the codes and it was not
/// enrolled yet; every other field unchanged.
pub open spec fn enrolled_from(before: Course, after: Course, codes: Seq<String>, uid: Seq<char>) -> bool {
    &&& after.id == before.id
    &&& after.title == before.title
    &&& after.description == before.description
    &&& after.instructor_ids@ == before.instructor_ids@
    &&& after.tenant_id == before.tenant_id
    &&& after.lessons@ == before.lessons@
    &&& after.created_at == before.created_at
    &&& after.updated_at == before.updated_at
    &&& after.is_published == before.is_published
    &&& after.enrolled_students@ == (if lists(codes, before.id@) && !lists(before.enrolled_students@, uid) {
        before.enrolled_students@.push(after.enrolled_students@.last())
    } else {
        before.enrolled_students@
    })
    &&& (lists(codes, before.id@) && !lists(before.enrolled_students@, uid) ==> after.enrolled_students@.last()@ == uid)
}

/// Enrols `uid` in each course whose id is among `codes`, unless already
/// enrolled; codes that name no course are skipped.
pub fn enroll_in_pre_assigned_courses(state: &mut TenantState, uid: &String, codes: &Vec<String>)
    requires
        old(state).wf(),
    ensures
        final(state).wf(),
        final(state).data() == old(state).data(),
        final(state).users() == old(state).users(),
        final(state).grades() == old(state).grades(),
        final(state).quizzes() == old(state).quizzes(),
        final(state).pre_users() == old(state).pre_users(),
        final(state).courses().len() == old(state).courses().len(),
        forall|k: int| 0 <= k < old(state).courses().len() ==> enrolled_from(old(state).courses()[k], #[trigger] final(state).courses()[k], codes@, uid@),
{
    let ghost cs0 = state.courses();
    let mut j: usize = 0;
    proof {
        assert forall|k: int| 0 <= k < cs0.len() implies enrolled_from(cs0[k], #[trigger] state.courses()[k], codes@.take(0), uid@) by {}
    }
    while j < codes.len()
        invariant
            j <= codes@.len(),
            state.wf(),
            state.data() == old(state).data(),
            state.users() == old(state).users(),
            state.grades() == old(state).grades(),
            state.quizzes() == old(state).quizzes(),
            state.pre_users() == old(state).pre_users(),
            cs0 == old(state).courses(),
            state.courses().len() == cs0.len(),
            forall|k: int| 0 <= k < cs0.len() ==> enrolled_from(cs0[k], #[trigger] state.courses()[k], codes@.take(j as int), uid@),
        decreases codes.len() - j,
    {
        let ghost pre = codes@.take(j as int);
        let ghost post = codes@.take(j as int + 1);
        assert(post == pre.push(codes@[j as int]));
        proof {
            assert forall|s: Seq<char>| lists(post, s) == (lists(pre, s) || codes@[j as int]@ == s) by {
                if lists(post, s) {
                    let m = choose|m: int| 0 <= m < post.len() && (#[trigger] post[m])@ == s;
                    if m < pre.len() {
                        assert(pre[m] == post[m]);
                    }
                }
                if lists(pre, s) {
                    let m = choose|m: int| 0 <= m < pre.len() && (#[trigger] pre[m])@ == s;
                    assert(post[m] == pre[m]);
                }
                if codes@[j as int]@ == s {
                    assert(post[pre.len() as int] == codes@[j as int]);
                }
            }
        }
        match state.find_course(&codes[j]) {
            Some(i) => {
                if !contains_text(&state.course_records()[i].enrolled_students, uid) {
                    let c = &state.course_records()[i];
                    let mut students = copy_strings(&c.enrolled_students);
                    students.push(uid.clone());
                    let nc = Course {
                        id: c.id.clone(),
                        title: c.title.clone(),
                        description: c.description.clone(),
                        instructor_ids: copy_strings(&c.instructor_ids),
                        tenant_id: c.tenant_id.clone(),
                        lessons: copy_strings(&c.lessons),
                        enrolled_students: students,
                        created_at: c.created_at,
                        updated_at: c.updated_at,
                        is_published: c.is_published,
                    };
                    let ghost before = state.courses();
                    state.replace_course(i, nc);
                    proof {
                        assert forall|k: int| 0 <= k < cs0.len() implies enrolled_from(cs0[k], #[trigger] state.courses()[k], post, uid@) by {
                            if k == i {
                                assert(enrolled_from(cs0[k], before[k], pre, uid@));
                                assert(!lists(pre, cs0[k].id@) || lists(cs0[k].enrolled_students@, uid@)) by {
                                    if lists(pre, cs0[k].id@) && !lists(cs0[k].enrolled_students@, uid@) {
                                        let last = before[k].enrolled_students@.len() - 1;
                                        assert(before[k].enrolled_students@[last]@ == uid@);
                                    }
                                }
                                assert(state.courses()[k].enrolled_students@.drop_last() =~= before[k].enrolled_students@);
                            } else {
                                assert(state.courses()[k] == before[k]);
                                assert(enrolled_from(cs0[k], before[k], pre, uid@));
                                if codes@[j as int]@ == cs0[k].id@ {
                                    assert(cs0[k].id@ == before[i as int].id@);
                                }
                            }
                        }
                    }
                } else {
                    proof {
                        assert forall|k: int| 0 <= k < cs0.len() implies enrolled_from(cs0[k], #[trigger] state.courses()[k], post, uid@) by {
                            assert(enrolled_from(cs0[k], state.courses()[k], pre, uid@));
                            if k == i && !lists(pre, cs0[k].id@) && !lists(cs0[k].enrolled_students@, uid@) {
                                assert(state.courses()[k].enrolled_students@ == cs0[k].enrolled_students@);
                            }
                            if k != i && codes@[j as int]@ == cs0[k].id@ {
                                assert(cs0[k].id@ == state.courses()[i as int].id@);
                            }
                        }
                    }
                }
            },
            None => {
                proof {
                    assert forall|k: int| 0 <= k < cs0.len() implies enrolled_from(cs0[k], #[trigger] state.courses()[k], post, uid@) by {
                        assert(enrolled_from(cs0[k], state.courses()[k], pre, uid@));
                        if codes@[j as int]@ == cs0[k].id@ {
                            assert(state.courses()[k].id@ == codes@[j as int]@);
                        }
                    }
                }
            },
        }
        j += 1;
    }
    assert(codes@.take(codes@.len() as int) =~= codes@);
}


/// What linking needs: an identified caller that is not a user yet, an
/// initialised tenant, and a verified, unlinked record whose email matches.
pub open spec fn link_ok(state: TenantState, caller: Option<String>, university_id: Seq<char>, email: Seq<char>) -> bool {
    &&& caller is Some
    &&& state.data() is Some
    &&& !user_exists(state.users(), caller->Some_0@)
    &&& pre_user_exists(state.pre_users(), university_id)
    &&& same_email(lookup_pre_user(state.pre_users(), university_id)->Some_0.email@, email)
    &&& can_link(lookup_pre_user(state.pre_users(), university_id)->Some_0)
}

/// Links the caller's identity to the verified record `university_id`: the
/// record becomes a full user of this tenant, enrolled in the record's
/// pre-assigned courses. An identity links at most one record and a record
/// at most one identity.
pub fn link_internet_identity(state: &mut TenantState, caller: &Option<String>, university_id: &str, email: &str, now: u64) -> (r: LMSResult<User>)
    requires
        old(state).wf(),
    ensures
        final(state).wf(),
        final(state).data() == old(state).data(),
        final(state).grades() == old(state).grades(),
        final(state).quizzes() == old(state).quizzes(),
        r is Ok == link_ok(*old(state), *caller, university_id@, email@),
        r is Err ==> *final(state) == *old(state),
        caller is None ==> r is Err && r->Err_0 is UserNotAuthenticated,
        caller is Some && old(state).data() is Some && !user_exists(old(state).users(), caller->Some_0@)
            && pre_user_exists(old(state).pre_users(), university_id@)
            && !can_link(lookup_pre_user(old(state).pre_users(), university_id@)->Some_0) ==> r is Err && r->Err_0 is ValidationError,
        r is Ok ==> {
            let p = lookup_pre_user(old(state).pre_users(), university_id@)->Some_0;
            let c = caller->Some_0;
            &&& final(state).users() == old(state).users().push(r->Ok_0)
            &&& r->Ok_0 == (User {
                id: c,
                name: p.name,
                email: p.email,
                role: p.role,
                tenant_id: r->Ok_0.tenant_id,
                created_at: now,
                updated_at: now,
                is_active: true,
            })
            &&& r->Ok_0.tenant_id@ == old(state).data()->Some_0.tenant_id@
            &&& pre_user_replaced(old(state).pre_users(), final(state).pre_users(), university_id@, (PreProvisionedUser {
                course_codes: lookup_pre_user(final(state).pre_users(), university_id@)->Some_0.course_codes,
                ..after_link(p, c)
            }))
            &&& lookup_pre_user(final(state).pre_users(), university_id@)->Some_0.course_codes@ == p.course_codes@
            &&& final(state).courses().len() == old(state).courses().len()
            &&& forall|k: int| 0 <= k < old(state).courses().len() ==> enrolled_from(old(state).courses()[k], #[trigger] final(state).courses()[k], p.course_codes@, c@)
        },
{
    let principal = match caller {
        Some(c) => c.clone(),
        None => {
            return Err(LMSError::UserNotAuthenticated(text("Anonymous access not allowed")));
        },
    };
    let tenant_id = crate::tenant::get_tenant_id(state)?;
    if state.find_user(&principal).is_some() {
        return Err(LMSError::ValidationError(text("This Internet Identity is already linked to an account")));
    }
    let id = String::from_str(university_id);
    let i = match state.find_pre_user(&id) {
        Some(i) => i,
        None => {
            return Err(LMSError::NotFound(text("University ID not found")));
        },
    };
    proof {
        lemma_pre_user_at(state.pre_users(), id@, i as int);
    }
    let mut p = copy_pre_user(&state.pre_user_records()[i]);
    if !emails_match(p.email.as_str(), email) {
        return Err(LMSError::ValidationError(text("Email does not match")));
    }
    if !p.is_verified {
        return Err(LMSError::ValidationError(text("Email must be verified before linking II")));
    }
    if p.ii_principal.is_some() {
        return Err(LMSError::ValidationError(text("University ID already linked to another Internet Identity")));
    }
    p.link_ii_principal(principal.clone())?;
    let user = p.to_user(tenant_id.as_str(), now)?;
    let result = user.duplicate();
    state.insert_user(user);
    let codes = copy_strings(&p.course_codes);
    enroll_in_pre_assigned_courses(state, &principal, &codes);
    let ghost np = p;
    let ghost before = state.pre_users();
    state.replace_pre_user(i, p);
    proof {
        lemma_pre_replaced(before, state.pre_users(), i as int, university_id@, np);
        lemma_pre_user_at(state.pre_users(), university_id@, i as int);
    }
    Ok(result)
}

/// The status of record `university_id` and whether an identity is linked.
pub fn get_linking_status(state: &TenantState, university_id: &str) -> (r: LMSResult<(PreProvisionStatus, bool)>)
    requires
        state.wf(),
    ensures
        r is Ok == pre_user_exists(state.pre_users(), university_id@),
        r is Ok ==> r->Ok_0.0 == lookup_pre_user(state.pre_users(), university_id@)->Some_0.status
            && r->Ok_0.1 == lookup_pre_user(state.pre_users(), university_id@)->Some_0.ii_principal is Some,
        r is Err ==> r->Err_0 is NotFound,
{
    let id = String::from_str(university_id);
    match state.find_pre_user(&id) {
        Some(i) => {
            proof {
                lemma_pre_user_at(state.pre_users(), id@, i as int);
            }
            let p = &state.pre_user_records()[i];
            Ok((p.status, p.ii_principal.is_some()))
        },
        None => Err(LMSError::NotFound(text("University ID not found"))),
    }
}

/// Whether record `university_id` exists and can still be used: not linked
/// yet.
pub fn check_university_id(state: &TenantState, university_id: &str) -> (r: LMSResult<String>)
    requires
        state.wf(),
    ensures
        r is Ok == (pre_user_exists(state.pre_users(), university_id@)
            && lookup_pre_user(state.pre_users(), university_id@)->Some_0.ii_principal is None),
        !pre_user_exists(state.pre_users(), university_id@) ==> r is Err && r->Err_0 is NotFound,
        r is Err && pre_user_exists(state.pre_users(), university_id@) ==> r->Err_0 is ValidationError,
{
    let id = String::from_str(university_id);
    match state.find_pre_user(&id) {
        Some(i) => {
            proof {
                lemma_pre_user_at(state.pre_users(), id@, i as int);
            }
            if state.pre_user_records()[i].ii_principal.is_some() {
                Err(LMSError::ValidationError(text("University ID already linked to an Internet Identity")))
            } else {
                Ok(join2("University ID found: ", state.pre_user_records()[i].name.as_str()))
            }
        },
        None => Err(LMSError::NotFound(text("University ID not found"))),
    }
}

/// Deletes record `university_id`, as an active Admin or TenantAdmin.
pub fn delete_pre_provisioned_user(state: &mut TenantState, caller: &Option<String>, university_id: &str) -> (r: LMSResult<String>)
    requires
        old(state).wf(),
    ensures
        only_pre_users_changed(*old(state), *final(state)),
        r is Err ==> final(state).pre_users() == old(state).pre_users(),
        r is Ok == (has_admin_rights(*old(state), *caller)
            && pre_user_exists(old(state).pre_users(), university_id@)),
        r is Ok ==> exists|i: int| 0 <= i < old(state).pre_users().len() && (#[trigger] old(state).pre_users()[i]).university_id@ == university_id@
            && final(state).pre_users() == old(state).pre_users().remove(i),
{
    is_admin_compat(state, caller)?;
    let id = String::from_str(university_id);
    match state.find_pre_user(&id) {
        Some(i) => {
            state.delete_pre_user_at(i);
            Ok(join2("Deleted pre-provisioned user: ", university_id))
        },
        None => Err(LMSError::NotFound(text("University ID not found"))),
    }
}

/// The prefix of a generated university id, by the role named in a row
/// (matched in lower case).
pub open spec fn id_prefix(role: Seq<char>) -> Seq<char> {
    if role == "student"@ {
        "STU"@
    } else if role == "instructor"@ || role == "faculty"@ || role == "teacher"@ {
        "FAC"@
    } else if role == "admin"@ || role == "administrator"@ {
        "ADM"@
    } else {
        "USR"@
    }
}

fn role_prefix(role: &str) -> (r: &'static str)
    ensures
        r@ == id_prefix(lowercase(role@)),
{
    let l = lowercase_text(role);
    if l == text("student") {
        "STU"
    } else if l == text("instructor") || l == text("faculty") || l == text("teacher") {
        "FAC"
    } else if l == text("admin") || l == text("administrator") {
        "ADM"
    } else {
        "USR"
    }
}

/// `n` in decimal, padded with zeros to three digits.
pub open spec fn padded3(n: nat) -> Seq<char> {
    if n < 10 {
        "00"@ + decimal(n)
    } else if n < 100 {
        "0"@ + decimal(n)
    } else {
        decimal(n)
    }
}

/// The id given to a row without one: tenant, role prefix and a number.
pub open spec fn generated_id(tenant_id: Seq<char>, role: Seq<char>, number: Seq<char>) -> Seq<char> {
    tenant_id + "_"@ + id_prefix(lowercase(role)) + number
}

fn copy_record(r: &UniversityImportRecord) -> (c: UniversityImportRecord)
    ensures
        c == *r,
{
    UniversityImportRecord {
        university_id: r.university_id.clone(),
        email: r.email.clone(),
        name: r.name.clone(),
        role: r.role.clone(),
        department: crate::grade::copy_opt(&r.department),
        year_of_study: r.year_of_study,
        course_codes: r.course_codes.clone(),
    }
}

/// Whether some imported record has email `e`.
pub open spec fn email_taken(ps: Seq<PreProvisionedUser>, e: Seq<char>) -> bool {
    exists|i: int| 0 <= i < ps.len() && (#[trigger] ps[i]).email@ == e
}

fn find_email(state: &TenantState, e: &String) -> (r: bool)
    ensures
        r == email_taken(state.pre_users(), e@),
{
    let ps = state.pre_user_records();
    let mut i: usize = 0;
    while i < ps.len()
        invariant
            i <= ps@.len(),
            ps@ == state.pre_users(),
            forall|k: int| 0 <= k < i ==> (#[trigger] ps@[k]).email@ != e@,
        decreases ps.len() - i,
    {
        if ps[i].email == *e {
            return true;
        }
        i += 1;
    }
    false
}

/// The university id row `k` is imported under: its own, or one made of
/// the tenant, its role and its position counted from 1, on three digits.
pub open spec fn row_id(tenant_id: Seq<char>, r: UniversityImportRecord, k: int) -> Seq<char> {
    if r.university_id@.len() == 0 {
        generated_id(tenant_id, r.role@, padded3((k + 1) as nat))
    } else {
        r.university_id@
    }
}

/// `u` is what row `i` of `rs` gives when imported into tenant `t` at `now`.
pub open spec fn from_row(u: PreProvisionedUser, rs: Seq<UniversityImportRecord>, t: Seq<char>, i: int, now: u64) -> bool {
    0 <= i < rs.len() && imported_from(u, rs[i], row_id(t, rs[i], i), now)
}

/// The records of `ps` from index `from` on come, in order, from the rows
/// of `rs` whose indices `src` lists.
pub open spec fn from_rows(ps: Seq<PreProvisionedUser>, from: int, rs: Seq<UniversityImportRecord>, t: Seq<char>, now: u64, src: Seq<int>) -> bool {
    &&& ps.len() == from + src.len()
    &&& forall|m: int| 0 <= m < src.len() ==> #[trigger] from_row(ps[from + m], rs, t, src[m], now)
}

/// Whether row `k` of `rs` is stored when the rows are imported in order
/// into `start`: it parses, and neither its id nor its email is already
/// stored, before the batch or by an earlier row.
pub open spec fn record_imported(start: TenantState, tenant_id: Seq<char>, rs: Seq<UniversityImportRecord>, k: int) -> bool
    decreases k, 1nat,
{
    if k < 0 || k >= rs.len() {
        false
    } else {
        let r = rs[k];
        let id = trimmed(row_id(tenant_id, r, k));
        let em = lowercase(trimmed(r.email@));
        &&& row_ok(row_id(tenant_id, r, k), r)
        &&& !pre_user_exists(start.pre_users(), id)
        &&& !id_added(start, tenant_id, rs, k, id)
        &&& !email_taken(start.pre_users(), em)
        &&& !email_added(start, tenant_id, rs, k, em)
    }
}

/// Whether one of the first `k` rows stored university id `x`.
pub open spec fn id_added(start: TenantState, tenant_id: Seq<char>, rs: Seq<UniversityImportRecord>, k: int, x: Seq<char>) -> bool
    decreases k, 0nat,
{
    if k <= 0 || k > rs.len() {
        false
    } else {
        id_added(start, tenant_id, rs, k - 1, x) || (record_imported(start, tenant_id, rs, k - 1)
            && trimmed(row_id(tenant_id, rs[k - 1], k - 1)) == x)
    }
}

/// Whether one of the first `k` rows stored email `e`.
pub open spec fn email_added(start: TenantState, tenant_id: Seq<char>, rs: Seq<UniversityImportRecord>, k: int, e: Seq<char>) -> bool
    decreases k, 0nat,
{
    if k <= 0 || k > rs.len() {
        false
    } else {
        email_added(start, tenant_id, rs, k - 1, e) || (record_imported(start, tenant_id, rs, k - 1)
            && lowercase(trimmed(rs[k - 1].email@)) == e)
    }
}

/// How many of the first `k` rows are stored.
pub open spec fn imported_count(start: TenantState, tenant_id: Seq<char>, rs: Seq<UniversityImportRecord>, k: int) -> nat
    decreases k, 0nat,
{
    if k <= 0 || k > rs.len() {
        0
    } else {
        imported_count(start, tenant_id, rs, k - 1) + if record_imported(start, tenant_id, rs, k - 1) { 1nat } else { 0nat }
    }
}

/// How many of the first `k` rows are stored with the Student role.
pub open spec fn imported_students(start: TenantState, tenant_id: Seq<char>, rs: Seq<UniversityImportRecord>, k: int) -> nat
    decreases k,
{
    if k <= 0 || k > rs.len() {
        0
    } else {
        imported_students(start, tenant_id, rs, k - 1) + if record_imported(start, tenant_id, rs, k - 1)
            && role_named(lowercase(rs[k - 1].role@)) == Some(UserRole::Student) {
            1nat
        } else {
            0nat
        }
    }
}

/// Imports rows of a university's records, as an active Admin or
/// TenantAdmin. A row without a university id gets one made of the tenant,
/// its role and its position (`tenant1_STU001`). Rows are taken in order;
/// those that fail to parse, or whose id or email is already stored, are
/// reported and skipped; the others are stored.
pub fn import_university_records(state: &mut TenantState, caller: &Option<String>, records: &Vec<UniversityImportRecord>, now: u64) -> (r: LMSResult<ImportStats>)
    requires
        old(state).wf(),
        records@.len() <= u32::MAX,
    ensures
        only_pre_users_changed(*old(state), *final(state)),
        r is Ok == (has_admin_rights(*old(state), *caller)
            && old(state).data() is Some),
        r is Err ==> final(state).pre_users() == old(state).pre_users(),
        r is Ok ==> {
            let st = r->Ok_0;
            let t = old(state).data()->Some_0.tenant_id@;
            &&& st.total_imported == imported_count(*old(state), t, records@, records@.len() as int)
            &&& st.total_imported + st.errors@.len() == records@.len()
            &&& st.students_imported + st.staff_imported == st.total_imported
            &&& st.students_imported == imported_students(*old(state), t, records@, records@.len() as int)
            &&& st.timestamp == now
            &&& final(state).pre_users().len() == old(state).pre_users().len() + st.total_imported
            &&& final(state).pre_users().take(old(state).pre_users().len() as int) == old(state).pre_users()
            &&& forall|x: Seq<char>| #[trigger] pre_user_exists(final(state).pre_users(), x) == (pre_user_exists(old(state).pre_users(), x)
                || id_added(*old(state), t, records@, records@.len() as int, x))
            &&& exists|src: Seq<int>| #[trigger] from_rows(final(state).pre_users(), old(state).pre_users().len() as int, records@, t, now, src)
        },
{
    is_admin_compat(state, caller)?;
    let tenant_id = crate::tenant::get_tenant_id(state)?;
    let ghost start = *state;
    let ghost stored0 = state.pre_users();
    let ghost rs = records@;
    let ghost t = tenant_id@;
    let mut total: u32 = 0;
    let mut students: u32 = 0;
    let mut staff: u32 = 0;
    let mut errors: Vec<String> = Vec::new();
    let ghost mut src: Seq<int> = Seq::empty();
    let mut i: usize = 0;
    while i < records.len()
        invariant
            i <= records@.len() <= u32::MAX,
            rs == records@,
            start == *old(state),
            t == old(state).data()->Some_0.tenant_id@,
            tenant_id@ == t,
            only_pre_users_changed(*old(state), *state),
            stored0 == old(state).pre_users(),
            total + errors@.len() == i,
            students + staff == total,
            total as nat == imported_count(start, t, rs, i as int),
            students as nat == imported_students(start, t, rs, i as int),
            state.pre_users().len() == stored0.len() + total,
            state.pre_users().take(stored0.len() as int) == stored0,
            forall|x: Seq<char>| #[trigger] pre_user_exists(state.pre_users(), x) == (pre_user_exists(stored0, x) || id_added(start, t, rs, i as int, x)),
            forall|e: Seq<char>| #[trigger] email_taken(state.pre_users(), e) == (email_taken(stored0, e) || email_added(start, t, rs, i as int, e)),
            from_rows(state.pre_users(), stored0.len() as int, rs, t, now, src),
        decreases records.len() - i,
    {
        let mut record = copy_record(&records[i]);
        if record.university_id.as_str().unicode_len() == 0 {
            let mut id = join3(tenant_id.as_str(), "_", role_prefix(record.role.as_str()));
            let n = (i + 1) as u64;
            proof {
                reveal_strlit("00");
                reveal_strlit("0");
            }
            if n < 10 {
                id.append("00");
            } else if n < 100 {
                id.append("0");
            }
            push_decimal(&mut id, n);
            assert(id@ =~= generated_id(t, rs[i as int].role@, padded3((i + 1) as nat)));
            record.university_id = id;
        }
        assert(record == (UniversityImportRecord { university_id: record.university_id, ..rs[i as int] }));
        assert(record.university_id@ == row_id(t, rs[i as int], i as int));
        let label = record.university_id.clone();
        let ghost rec = record;
        let ghost pb = state.pre_users();
        match PreProvisionedUser::from_import_record(record, tenant_id.as_str(), now) {
            Ok(user) => {
                assert(row_ok(row_id(t, rs[i as int], i as int), rs[i as int]));
                if let Some(d) = state.find_pre_user(&user.university_id) {
                    assert(pre_user_exists(state.pre_users(), user.university_id@));
                    errors.push(join2("Duplicate university ID: ", user.university_id.as_str()));
                    assert(!record_imported(start, t, rs, i as int));
                } else if find_email(state, &user.email) {
                    errors.push(join2("Email already exists: ", user.email.as_str()));
                    assert(!record_imported(start, t, rs, i as int));
                } else {
                    assert(record_imported(start, t, rs, i as int));
                    if user.role == UserRole::Student {
                        students += 1;
                    } else {
                        staff += 1;
                    }
                    total += 1;
                    let ghost u = user;
                    state.insert_pre_user(user);
                    assert(state.pre_users().take(stored0.len() as int) =~= pb.take(stored0.len() as int));
                    let ghost ps = state.pre_users();
                    assert(ps[pb.len() as int] == u);
                    assert forall|x: Seq<char>| #[trigger] pre_user_exists(ps, x) == (pre_user_exists(stored0, x) || id_added(start, t, rs, i as int + 1, x)) by {
                        if pre_user_exists(ps, x) {
                            let m = choose|m: int| 0 <= m < ps.len() && (#[trigger] ps[m]).university_id@ == x;
                            if m < pb.len() {
                                assert(pb[m] == ps[m]);
                            }
                        }
                        if pre_user_exists(pb, x) {
                            let m = choose|m: int| 0 <= m < pb.len() && (#[trigger] pb[m]).university_id@ == x;
                            assert(ps[m] == pb[m]);
                        }
                    }
                    assert forall|e: Seq<char>| #[trigger] email_taken(ps, e) == (email_taken(stored0, e) || email_added(start, t, rs, i as int + 1, e)) by {
                        if email_taken(ps, e) {
                            let m = choose|m: int| 0 <= m < ps.len() && (#[trigger] ps[m]).email@ == e;
                            if m < pb.len() {
                                assert(pb[m] == ps[m]);
                            }
                        }
                        if email_taken(pb, e) {
                            let m = choose|m: int| 0 <= m < pb.len() && (#[trigger] pb[m]).email@ == e;
                            assert(ps[m] == pb[m]);
                        }
                    }
                    proof {
                        let src0 = src;
                        src = src.push(i as int);
                        assert forall|m: int| 0 <= m < src.len() implies #[trigger] from_row(ps[stored0.len() + m], rs, t, src[m], now) by {
                            if m < src0.len() {
                                assert(src[m] == src0[m]);
                                assert(ps[stored0.len() + m] == pb[stored0.len() + m]);
                                assert(from_row(pb[stored0.len() + m], rs, t, src0[m], now));
                            } else {
                                assert(stored0.len() + m == pb.len());
                            }
                        }
                    }
                }
            },
            Err(e) => {
                assert(!record_imported(start, t, rs, i as int));
                let mut m = join3("Failed to import ", label.as_str(), ": ");
                m.append(e.to_display_string().as_str());
                errors.push(m);
            },
        }
        i += 1;
    }
    assert(from_rows(state.pre_users(), stored0.len() as int, rs, t, now, src));
    Ok(ImportStats { total_imported: total, students_imported: students, staff_imported: staff, errors, timestamp: now })
}

/// Number of records of `ps` that satisfy the `k`-th count: students (0),
/// staff (1), verified (2), linked (3).
pub open spec fn count_of(ps: Seq<PreProvisionedUser>, k: int) -> nat
    decreases ps.len(),
{
    if ps.len() == 0 {
        0
    } else {
        let p = ps.last();
        let hit = if k == 0 {
            p.role == UserRole::Student
        } else if k == 1 {
            p.role != UserRole::Student
        } else if k == 2 {
            p.is_verified
        } else {
            p.status == PreProvisionStatus::Linked
        };
        count_of(ps.drop_last(), k) + if hit { 1nat } else { 0nat }
    }
}

/// Counts of the imported records, for an active Admin or TenantAdmin:
/// total, students, staff, verified and linked, under those names.
pub fn get_import_statistics(state: &TenantState, caller: &Option<String>) -> (r: LMSResult<Vec<(String, u64)>>)
    requires
        state.wf(),
    ensures
        r is Ok == (has_admin_rights(*state, *caller)),
        r is Ok ==> r->Ok_0@.len() == 5,
        r is Ok ==> r->Ok_0@[0].0@ == "total"@ && r->Ok_0@[0].1 == state.pre_users().len(),
        r is Ok ==> r->Ok_0@[1].0@ == "students"@ && r->Ok_0@[1].1 == count_of(state.pre_users(), 0),
        r is Ok ==> r->Ok_0@[2].0@ == "staff"@ && r->Ok_0@[2].1 == count_of(state.pre_users(), 1),
        r is Ok ==> r->Ok_0@[3].0@ == "verified"@ && r->Ok_0@[3].1 == count_of(state.pre_users(), 2),
        r is Ok ==> r->Ok_0@[4].0@ == "linked"@ && r->Ok_0@[4].1 == count_of(state.pre_users(), 3),
{
    is_admin_compat(state, caller)?;
    let ps = state.pre_user_records();
    let mut students: u64 = 0;
    let mut staff: u64 = 0;
    let mut verified: u64 = 0;
    let mut linked: u64 = 0;
    let mut i: usize = 0;
    while i < ps.len()
        invariant
            i <= ps@.len(),
            ps@ == state.pre_users(),
            students == count_of(ps@.take(i as int), 0),
            staff == count_of(ps@.take(i as int), 1),
            verified == count_of(ps@.take(i as int), 2),
            linked == count_of(ps@.take(i as int), 3),
            students <= i && staff <= i && verified <= i && linked <= i,
        decreases ps.len() - i,
    {
        assert(ps@.take(i as int + 1).drop_last() =~= ps@.take(i as int));
        let p = &ps[i];
        if p.role == UserRole::Student {
            students += 1;
        } else {
            staff += 1;
        }
        if p.is_verified {
            verified += 1;
        }
        if p.status == PreProvisionStatus::Linked {
            linked += 1;
        }
        i += 1;
    }
    assert(ps@.take(ps@.len() as int) =~= ps@);
    let mut r: Vec<(String, u64)> = Vec::new();
    r.push((text("total"), ps.len() as u64));
    r.push((text("students"), students));
    r.push((text("staff"), staff));
    r.push((text("verified"), verified));
    r.push((text("linked"), linked));
    Ok(r)
}
} // verus!
