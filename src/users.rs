use vstd::prelude::*;
use vstd::string::StringExecFns;
use crate::error::{text, LMSError, LMSResult};
use crate::rbac::{
    active_caller, can_modify_user, is_router_admin, lemma_lookup_at, lookup_user, require_admin,
    require_authenticated, require_teacher, can_assign_role, has_teacher_rights, can_access_user_data, may_access_user, may_modify_user, may_assign,
};
use crate::tenant::{get_tenant_id, user_exists, TenantState};
use crate::user::{is_admin_role, role_level, User, UserRole};
use crate::utils::{has_char, is_valid_email};

verus! {

/// Only the users changed, from `before` to `after`.
pub open spec fn only_users_changed(before: TenantState, after: TenantState) -> bool {
    &&& after.wf()
    &&& after.data() == before.data()
    &&& after.courses() == before.courses()
    &&& after.grades() == before.grades()
    &&& after.quizzes() == before.quizzes()
    &&& after.pre_users() == before.pre_users()
}

/// A valid email has an `@` and a `.`.
pub open spec fn email_ok(e: Seq<char>) -> bool {
    has_char(e, '@') && has_char(e, '.')
}

/// The caller may register a user with `role`: the router-designated
/// administrator may register anyone; an active Admin anyone but a
/// TenantAdmin; an active TenantAdmin anyone.
pub open spec fn may_register(state: TenantState, caller: Option<String>, role: UserRole) -> bool {
    is_router_admin(state, caller) || (active_caller(state, caller) is Some && is_admin_role(
        active_caller(state, caller)->Some_0.role,
    ) && (active_caller(state, caller)->Some_0.role == UserRole::TenantAdmin || role != UserRole::TenantAdmin))
}

/// Registers user `id` in this tenant at time `now`.
pub fn register_user(
    state: &mut TenantState,
    caller: &Option<String>,
    id: &str,
    name: &str,
    email: &str,
    role: UserRole,
    tenant_id: &str,
    now: u64,
) -> (r: LMSResult<User>)
    requires
        old(state).wf(),
    ensures
        only_users_changed(*old(state), *final(state)),
        r is Ok == (may_register(*old(state), *caller, role) && email_ok(email@) && old(state).data() is Some
            && old(state).data()->Some_0.tenant_id@ == tenant_id@ && !user_exists(old(state).users(), id@)),
        r is Err ==> final(state).users() == old(state).users(),
        r is Ok ==> final(state).users() == old(state).users().push(r->Ok_0),
        r is Ok ==> r->Ok_0.id@ == id@ && r->Ok_0.name@ == name@ && r->Ok_0.email@ == email@ && r->Ok_0.role == role
            && r->Ok_0.tenant_id@ == tenant_id@ && r->Ok_0.created_at == now && r->Ok_0.updated_at == now
            && r->Ok_0.is_active,
        may_register(*old(state), *caller, role) && !email_ok(email@) ==> r is Err && r->Err_0 is ValidationError,
        may_register(*old(state), *caller, role) && email_ok(email@) && old(state).data() is Some
            && old(state).data()->Some_0.tenant_id@ == tenant_id@ && user_exists(old(state).users(), id@)
            ==> r is Err && r->Err_0 is AlreadyExists,
{
    let is_router = crate::rbac::check_router_admin(state, caller);
    if !is_router {
        require_admin(state, caller)?;
        can_assign_role(state, caller, &role)?;
    }
    if !is_valid_email(email) {
        return Err(LMSError::ValidationError(text("Invalid email format")));
    }
    let current = get_tenant_id(state)?;
    if current != String::from_str(tenant_id) {
        return Err(LMSError::ValidationError(text("Tenant ID mismatch")));
    }
    let uid = String::from_str(id);
    if state.find_user(&uid).is_some() {
        return Err(LMSError::AlreadyExists(text("User already exists")));
    }
    let user = User {
        id: uid,
        name: String::from_str(name),
        email: String::from_str(email),
        role,
        tenant_id: current,
        created_at: now,
        updated_at: now,
        is_active: true,
    };
    let result = user.duplicate();
    state.insert_user(user);
    Ok(result)
}

/// Every user, for callers of Instructor level or above; nothing for
/// anyone else.
pub fn list_users(state: &TenantState, caller: &Option<String>) -> (r: Vec<User>)
    requires
        state.wf(),
    ensures
        has_teacher_rights(*state, *caller) ==> r@ == state.users(),
        !has_teacher_rights(*state, *caller) ==> r@.len() == 0,
{
    if crate::rbac::require_teacher_rights(state, caller).is_err() {
        return Vec::new();
    }
    let us = state.user_records();
    let mut r: Vec<User> = Vec::new();
    let mut i: usize = 0;
    while i < us.len()
        invariant
            i <= us@.len(),
            r@ == us@.take(i as int),
        decreases us.len() - i,
    {
        r.push(us[i].duplicate());
        assert(r@ =~= us@.take(i as int + 1));
        i += 1;
    }
    assert(r@ =~= us@);
    r
}

/// The user `user_id`, if the caller may read that user's data.
pub fn get_user(state: &TenantState, caller: &Option<String>, user_id: &str) -> (r: LMSResult<User>)
    requires
        state.wf(),
    ensures
        r is Ok == (may_access_user(*state, *caller, user_id@) && user_exists(state.users(), user_id@)),
        r is Ok ==> Some(r->Ok_0) == lookup_user(state.users(), user_id@),
{
    can_access_user_data(state, caller, user_id)?;
    let uid = String::from_str(user_id);
    match state.find_user(&uid) {
        Some(i) => {
            proof {
                lemma_lookup_at(state.users(), uid@, i as int);
            }
            Ok(state.user_records()[i].duplicate())
        },
        None => Err(LMSError::NotFound(text("User not found"))),
    }
}


/// The user at index `i` after an update: each given field replaced, the
/// update time set to `now`.
pub open spec fn updated_user(u: User, name: Option<String>, email: Option<String>, is_active: Option<bool>, now: u64) -> User {
    User {
        name: match name { Some(n) => n, None => u.name },
        email: match email { Some(e) => e, None => u.email },
        is_active: match is_active { Some(a) => a, None => u.is_active },
        updated_at: now,
        ..u
    }
}

/// Changes the name, email and/or activity of user `user_id`. The caller
/// must be allowed to modify that user, and a new email must be valid.
pub fn update_user(
    state: &mut TenantState,
    caller: &Option<String>,
    user_id: &str,
    name: Option<String>,
    email: Option<String>,
    is_active: Option<bool>,
    now: u64,
) -> (r: LMSResult<User>)
    requires
        old(state).wf(),
    ensures
        only_users_changed(*old(state), *final(state)),
        r is Ok == (may_modify_user(*old(state), *caller, user_id@) && (email is Some ==> email_ok(email->Some_0@))),
        r is Err ==> final(state).users() == old(state).users(),
        r is Ok ==> final(state).users().len() == old(state).users().len(),
        r is Ok ==> forall|k: int| 0 <= k < old(state).users().len() ==> #[trigger] final(state).users()[k] == (if old(state).users()[k].id@ == user_id@ {
            updated_user(old(state).users()[k], name, email, is_active, now)
        } else {
            old(state).users()[k]
        }),
        r is Ok ==> Some(r->Ok_0) == lookup_user(final(state).users(), user_id@),
        may_modify_user(*old(state), *caller, user_id@) && email is Some && !email_ok(email->Some_0@) ==> r is Err
            && r->Err_0 is ValidationError,
{
    can_modify_user(state, caller, user_id)?;
    let uid = String::from_str(user_id);
    let i = match state.find_user(&uid) {
        Some(i) => i,
        None => {
            return Err(LMSError::NotFound(text("User not found")));
        },
    };
    proof {
        lemma_lookup_at(state.users(), uid@, i as int);
    }
    let mut user = state.user_records()[i].duplicate();
    if let Some(new_name) = name {
        user.name = new_name;
    }
    if let Some(new_email) = email {
        if !is_valid_email(new_email.as_str()) {
            return Err(LMSError::ValidationError(text("Invalid email format")));
        }
        user.email = new_email;
    }
    if let Some(active) = is_active {
        user.is_active = active;
    }
    user.updated_at = now;
    let result = user.duplicate();
    let ghost before = state.users();
    assert(result == updated_user(before[i as int], name, email, is_active, now));
    state.replace_user(i, user);
    proof {
        lemma_lookup_at(state.users(), user_id@, i as int);
    }
    Ok(result)
}

/// Gives user `user_id` the role `new_role`. The caller must be allowed to
/// modify that user and to hand out that role.
pub fn update_user_role(
    state: &mut TenantState,
    caller: &Option<String>,
    user_id: &str,
    new_role: UserRole,
    now: u64,
) -> (r: LMSResult<User>)
    requires
        old(state).wf(),
    ensures
        only_users_changed(*old(state), *final(state)),
        r is Ok == (may_modify_user(*old(state), *caller, user_id@) && may_assign(*old(state), *caller, new_role)),
        may_modify_user(*old(state), *caller, user_id@) && !may_assign(*old(state), *caller, new_role) ==> r is Err
            && r->Err_0 is InvalidRoleAssignment,
        r is Err ==> final(state).users() == old(state).users(),
        r is Ok ==> final(state).users().len() == old(state).users().len(),
        r is Ok ==> forall|k: int| 0 <= k < old(state).users().len() ==> #[trigger] final(state).users()[k] == (if old(state).users()[k].id@ == user_id@ {
            User { role: new_role, updated_at: now, ..old(state).users()[k] }
        } else {
            old(state).users()[k]
        }),
        r is Ok ==> Some(r->Ok_0) == lookup_user(final(state).users(), user_id@),
{
    can_modify_user(state, caller, user_id)?;
    can_assign_role(state, caller, &new_role)?;
    let uid = String::from_str(user_id);
    let i = match state.find_user(&uid) {
        Some(i) => i,
        None => {
            return Err(LMSError::NotFound(text("User not found")));
        },
    };
    proof {
        lemma_lookup_at(state.users(), uid@, i as int);
    }
    let mut user = state.user_records()[i].duplicate();
    user.role = new_role;
    user.updated_at = now;
    let result = user.duplicate();
    let ghost before = state.users();
    assert(result == (User { role: new_role, updated_at: now, ..before[i as int] }));
    state.replace_user(i, user);
    proof {
        lemma_lookup_at(state.users(), user_id@, i as int);
    }
    Ok(result)
}

/// Deactivates user `user_id`: it can no longer act in this tenant.
pub fn deactivate_user(state: &mut TenantState, caller: &Option<String>, user_id: &str, now: u64) -> (r: LMSResult<User>)
    requires
        old(state).wf(),
    ensures
        only_users_changed(*old(state), *final(state)),
        r is Ok == may_modify_user(*old(state), *caller, user_id@),
        r is Err ==> final(state).users() == old(state).users(),
        r is Ok ==> !r->Ok_0.is_active && r->Ok_0.id@ == user_id@,
{
    update_user(state, caller, user_id, None, None, Some(false), now)
}

/// Reactivates user `user_id`.
pub fn reactivate_user(state: &mut TenantState, caller: &Option<String>, user_id: &str, now: u64) -> (r: LMSResult<User>)
    requires
        old(state).wf(),
    ensures
        only_users_changed(*old(state), *final(state)),
        r is Ok == may_modify_user(*old(state), *caller, user_id@),
        r is Err ==> final(state).users() == old(state).users(),
        r is Ok ==> r->Ok_0.is_active && r->Ok_0.id@ == user_id@,
{
    update_user(state, caller, user_id, None, None, Some(true), now)
}

/// (id, name) of each listed id that names a user, in the order given.
pub open spec fn public_names(us: Seq<User>, ids: Seq<String>) -> Seq<(Seq<char>, Seq<char>)>
    decreases ids.len(),
{
    if ids.len() == 0 {
        seq![]
    } else {
        let rest = public_names(us, ids.drop_last());
        match lookup_user(us, ids.last()@) {
            Some(u) => rest.push((ids.last()@, u.name@)),
            None => rest,
        }
    }
}

/// Display names of the listed users, for any active caller; unknown ids
/// are skipped. Nothing for callers that are not authenticated.
pub fn get_public_user_names(state: &TenantState, caller: &Option<String>, user_ids: &Vec<String>) -> (r: Vec<(String, String)>)
    requires
        state.wf(),
    ensures
        active_caller(*state, *caller) is None ==> r@.len() == 0,
        active_caller(*state, *caller) is Some ==> r@.len() == public_names(state.users(), user_ids@).len()
            && forall|k: int| 0 <= k < r@.len() ==> (#[trigger] r@[k]).0@ == public_names(state.users(), user_ids@)[k].0
                && r@[k].1@ == public_names(state.users(), user_ids@)[k].1,
{
    if require_authenticated(state, caller).is_err() {
        return Vec::new();
    }
    let mut r: Vec<(String, String)> = Vec::new();
    let mut k: usize = 0;
    while k < user_ids.len()
        invariant
            state.wf(),
            k <= user_ids@.len(),
            r@.len() == public_names(state.users(), user_ids@.take(k as int)).len(),
            forall|m: int| 0 <= m < r@.len() ==> (#[trigger] r@[m]).0@ == public_names(state.users(), user_ids@.take(k as int))[m].0
                && r@[m].1@ == public_names(state.users(), user_ids@.take(k as int))[m].1,
        decreases user_ids.len() - k,
    {
        assert(user_ids@.take(k as int + 1).drop_last() =~= user_ids@.take(k as int));
        assert(user_ids@.take(k as int + 1).last() == user_ids@[k as int]);
        match state.find_user(&user_ids[k]) {
            Some(i) => {
                proof {
                    lemma_lookup_at(state.users(), user_ids@[k as int]@, i as int);
                }
                r.push((user_ids[k].clone(), state.user_records()[i].name.clone()));
            },
            None => {},
        }
        k += 1;
    }
    assert(user_ids@.take(user_ids@.len() as int) =~= user_ids@);
    r
}
} // verus!
