use vstd::prelude::*;
use vstd::string::StringExecFns;
use crate::course::{lists, contains_text, Course};
use crate::error::{join3, text, LMSError, LMSResult};
use crate::tenant::{unique_users, user_exists, TenantState};
use crate::user::{is_admin_role, role_level, role_name, User, UserRole};

verus! {

/// The user whose id is `id`, if any (ids are unique).
pub open spec fn lookup_user(us: Seq<User>, id: Seq<char>) -> Option<User> {
    if user_exists(us, id) {
        Some(us[choose|i: int| 0 <= i < us.len() && (#[trigger] us[i]).id@ == id])
    } else {
        None
    }
}

/// The caller's active user record, if the caller has one.
pub open spec fn active_caller(state: TenantState, caller: Option<String>) -> Option<User> {
    match caller {
        Some(c) => match lookup_user(state.users(), c@) {
            Some(u) => if u.is_active { Some(u) } else { None },
            None => None,
        },
        None => None,
    }
}

/// The caller is the identity the router designated as first administrator.
pub open spec fn is_router_admin(state: TenantState, caller: Option<String>) -> bool {
    caller is Some && state.data() is Some && state.data()->Some_0.admin_principal is Some
        && state.data()->Some_0.admin_principal->Some_0@ == caller->Some_0@
}

/// The caller has a user record that is deactivated.
pub open spec fn caller_deactivated(state: TenantState, caller: Option<String>) -> bool {
    caller is Some && lookup_user(state.users(), caller->Some_0@) is Some && !lookup_user(
        state.users(),
        caller->Some_0@,
    )->Some_0.is_active
}

/// How resolving the caller fails: anonymous or unknown callers are not
/// authenticated; deactivated ones are unauthorized.
pub open spec fn resolution_error(state: TenantState, caller: Option<String>, e: LMSError) -> bool {
    if caller_deactivated(state, caller) {
        e is Unauthorized
    } else {
        e is UserNotAuthenticated
    }
}

/// Why `lookup_user` picks the record at index `i`.
pub proof fn lemma_lookup_at(us: Seq<User>, id: Seq<char>, i: int)
    requires
        unique_users(us),
        0 <= i < us.len(),
        us[i].id@ == id,
    ensures
        lookup_user(us, id) == Some(us[i]),
{
    let j = choose|j: int| 0 <= j < us.len() && (#[trigger] us[j]).id@ == id;
    assert(i == j);
}

/// The caller's user record: the caller must be identified, known to this
/// tenant and active.
pub fn get_caller_user(state: &TenantState, caller: &Option<String>) -> (r: LMSResult<User>)
    requires
        state.wf(),
    ensures
        r is Ok == (active_caller(*state, *caller) is Some),
        r is Ok ==> r->Ok_0 == active_caller(*state, *caller)->Some_0,
        r is Err ==> resolution_error(*state, *caller, r->Err_0),
{
    match caller {
        None => Err(LMSError::UserNotAuthenticated(text("Anonymous access not allowed"))),
        Some(c) => match state.find_user(c) {
            None => Err(LMSError::UserNotAuthenticated(join3("Identity '", c.as_str(), "' is not registered in this tenant"))),
            Some(i) => {
                proof {
                    lemma_lookup_at(state.users(), c@, i as int);
                }
                let u = &state.user_records()[i];
                if !u.is_active {
                    Err(LMSError::Unauthorized(text("User account is deactivated")))
                } else {
                    Ok(u.duplicate())
                }
            },
        },
    }
}

/// Whether the caller is the router-designated administrator.
pub(crate) fn check_router_admin(state: &TenantState, caller: &Option<String>) -> (r: bool)
    ensures
        r == is_router_admin(*state, *caller),
{
    match (caller, state.tenant_data()) {
        (Some(c), Some(d)) => match &d.admin_principal {
            Some(a) => *a == *c,
            None => false,
        },
        _ => false,
    }
}

/// Whether the caller has administrator rights: the router-designated
/// administrator, or an active Admin or TenantAdmin.
pub fn is_admin(state: &TenantState, caller: &Option<String>) -> (r: bool)
    requires
        state.wf(),
    ensures
        r == (is_router_admin(*state, *caller) || (active_caller(*state, *caller) is Some
            && is_admin_role(active_caller(*state, *caller)->Some_0.role))),
{
    if check_router_admin(state, caller) {
        return true;
    }
    match get_caller_user(state, caller) {
        Ok(u) => u.role.can_manage_users(),
        Err(_) => false,
    }
}

/// Whether the caller has at least `required_role`: the router-designated
/// administrator counts as an administrator (any role up to Admin) even
/// without a user record; anyone else needs an active user record with a
/// role that high.
pub fn has_role(state: &TenantState, caller: &Option<String>, required_role: &UserRole) -> (r: bool)
    requires
        state.wf(),
    ensures
        r == ((is_router_admin(*state, *caller) && role_level(*required_role) <= 3) || (active_caller(*state, *caller) is Some && role_level(
            active_caller(*state, *caller)->Some_0.role,
        ) >= role_level(*required_role))),
{
    if check_router_admin(state, caller) && required_role.hierarchy_level() <= 3 {
        return true;
    }
    match get_caller_user(state, caller) {
        Ok(u) => u.role.has_permission_level(required_role),
        Err(_) => false,
    }
}

/// The caller's role.
pub fn get_caller_role(state: &TenantState, caller: &Option<String>) -> (r: LMSResult<UserRole>)
    requires
        state.wf(),
    ensures
        r is Ok == (active_caller(*state, *caller) is Some),
        r is Ok ==> r->Ok_0 == active_caller(*state, *caller)->Some_0.role,
        r is Err ==> resolution_error(*state, *caller, r->Err_0),
{
    match get_caller_user(state, caller) {
        Ok(u) => Ok(u.role),
        Err(e) => Err(e),
    }
}

/// The level an action needs: 0 for an action that is not known.
pub open spec fn required_level(action: Seq<char>) -> int {
    if action == "create_user"@ || action == "update_user"@ || action == "delete_user"@ {
        3
    } else if action == "view_all_users"@ || action == "create_course"@ || action == "assign_grade"@
        || action == "update_grade"@ {
        2
    } else if action == "view_all_grades"@ {
        3
    } else if action == "manage_tenant_settings"@ {
        4
    } else {
        0
    }
}

/// Name of the least role that has level `level`.
pub open spec fn level_name(level: int) -> Seq<char> {
    if level == 2 {
        "Instructor"@
    } else if level == 3 {
        "Admin"@
    } else {
        "TenantAdmin"@
    }
}

fn action_level(action: &String) -> (r: u8)
    ensures
        r as int == required_level(action@),
{
    if *action == text("create_user") || *action == text("update_user") || *action == text("delete_user") {
        3
    } else if *action == text("view_all_users") || *action == text("create_course") || *action
        == text("assign_grade") || *action == text("update_grade") {
        2
    } else if *action == text("view_all_grades") {
        3
    } else if *action == text("manage_tenant_settings") {
        4
    } else {
        0
    }
}

/// Whether the caller may perform the named action. The router-designated
/// administrator may do anything; otherwise the caller's role must reach
/// the level the action needs, and an unknown action is a validation error.
pub fn can_perform_action(state: &TenantState, caller: &Option<String>, action: &str) -> (r: LMSResult<()>)
    requires
        state.wf(),
    ensures
        is_router_admin(*state, *caller) ==> r is Ok,
        !is_router_admin(*state, *caller) && active_caller(*state, *caller) is None ==> r is Err
            && resolution_error(*state, *caller, r->Err_0),
        !is_router_admin(*state, *caller) && active_caller(*state, *caller) is Some ==> {
            let lvl = required_level(action@);
            let role = active_caller(*state, *caller)->Some_0.role;
            &&& (lvl == 0 ==> r is Err && r->Err_0 is ValidationError)
            &&& (lvl > 0 ==> (r is Ok <==> role_level(role) >= lvl))
            &&& (lvl > 0 && r is Err ==> r->Err_0 is AccessDenied && r->Err_0.msg() == "Access denied: '"@
                + action@ + "' requires '"@ + level_name(lvl) + "' role or higher"@)
        },
{
    if check_router_admin(state, caller) {
        return Ok(());
    }
    let user = match get_caller_user(state, caller) {
        Ok(u) => u,
        Err(e) => {
            return Err(e);
        },
    };
    let a = String::from_str(action);
    let lvl = action_level(&a);
    if lvl == 0 {
        return Err(LMSError::ValidationError(join3("Unknown action: ", action, "")));
    }
    if user.role.hierarchy_level() >= lvl {
        Ok(())
    } else {
        let needed = if lvl == 2 {
            "Instructor"
        } else if lvl == 3 {
            "Admin"
        } else {
            "TenantAdmin"
        };
        Err(LMSError::unauthorized_access(action, needed))
    }
}

/// Administrator rights: the router-designated administrator, or an active
/// Admin or TenantAdmin.
pub open spec fn has_admin_rights(state: TenantState, caller: Option<String>) -> bool {
    is_router_admin(state, caller) || (active_caller(state, caller) is Some && is_admin_role(
        active_caller(state, caller)->Some_0.role,
    ))
}

/// Teaching rights: the router-designated administrator, or an active user
/// of Instructor level or above.
pub open spec fn has_teacher_rights(state: TenantState, caller: Option<String>) -> bool {
    is_router_admin(state, caller) || (active_caller(state, caller) is Some && role_level(
        active_caller(state, caller)->Some_0.role,
    ) >= 2)
}

/// The caller's identity, if it has teaching rights.
pub fn require_teacher_rights(state: &TenantState, caller: &Option<String>) -> (r: LMSResult<String>)
    requires
        state.wf(),
    ensures
        r is Ok == has_teacher_rights(*state, *caller),
        r is Ok ==> *caller == Some(r->Ok_0),
        r is Err && active_caller(*state, *caller) is None ==> resolution_error(*state, *caller, r->Err_0),
        r is Err && active_caller(*state, *caller) is Some ==> r->Err_0 is AccessDenied,
{
    if check_router_admin(state, caller) {
        return Ok(caller.as_ref().unwrap().clone());
    }
    let user = require_teacher(state, caller)?;
    Ok(caller.as_ref().unwrap().clone())
}

/// The caller's identity, if it has administrator rights.
pub fn is_admin_compat(state: &TenantState, caller: &Option<String>) -> (r: LMSResult<String>)
    requires
        state.wf(),
    ensures
        r is Ok == (is_router_admin(*state, *caller) || (active_caller(*state, *caller) is Some
            && is_admin_role(active_caller(*state, *caller)->Some_0.role))),
        r is Ok ==> *caller == Some(r->Ok_0),
        r is Err && active_caller(*state, *caller) is None ==> resolution_error(*state, *caller, r->Err_0),
        r is Err && active_caller(*state, *caller) is Some ==> r->Err_0 is AccessDenied,
{
    if check_router_admin(state, caller) {
        return Ok(caller.as_ref().unwrap().clone());
    }
    match get_caller_user(state, caller) {
        Err(e) => Err(e),
        Ok(u) => {
            if u.role.can_manage_users() {
                Ok(caller.as_ref().unwrap().clone())
            } else {
                Err(LMSError::unauthorized_access("admin access", "Admin"))
            }
        },
    }
}

/// The caller's own user record, if it is an active Admin or TenantAdmin.
/// Operations check `has_admin_rights` (through `is_admin_compat`), which
/// also admits the router-designated administrator, who may have no record.
pub fn require_admin(state: &TenantState, caller: &Option<String>) -> (r: LMSResult<User>)
    requires
        state.wf(),
    ensures
        r is Ok == (active_caller(*state, *caller) is Some && is_admin_role(
            active_caller(*state, *caller)->Some_0.role,
        )),
        r is Ok ==> r->Ok_0 == active_caller(*state, *caller)->Some_0,
        r is Err && active_caller(*state, *caller) is None ==> resolution_error(*state, *caller, r->Err_0),
        r is Err && active_caller(*state, *caller) is Some ==> r->Err_0 is AccessDenied,
{
    let user = get_caller_user(state, caller)?;
    if user.role.can_manage_users() {
        Ok(user)
    } else {
        Err(LMSError::unauthorized_access("admin access", "Admin"))
    }
}

/// The caller's own user record, if it is an active Instructor or above.
/// Operations check `has_teacher_rights` (through `require_teacher_rights`),
/// which also admits the router-designated administrator.
pub fn require_teacher(state: &TenantState, caller: &Option<String>) -> (r: LMSResult<User>)
    requires
        state.wf(),
    ensures
        r is Ok == (active_caller(*state, *caller) is Some && role_level(
            active_caller(*state, *caller)->Some_0.role,
        ) >= 2),
        r is Ok ==> r->Ok_0 == active_caller(*state, *caller)->Some_0,
        r is Err && active_caller(*state, *caller) is None ==> resolution_error(*state, *caller, r->Err_0),
        r is Err && active_caller(*state, *caller) is Some ==> r->Err_0 is AccessDenied,
{
    let user = get_caller_user(state, caller)?;
    if user.role.has_permission_level(&UserRole::Instructor) {
        Ok(user)
    } else {
        Err(LMSError::unauthorized_access("teacher access", "Instructor"))
    }
}

/// The caller's record if it is any active user.
pub fn require_authenticated(state: &TenantState, caller: &Option<String>) -> (r: LMSResult<User>)
    requires
        state.wf(),
    ensures
        r is Ok == (active_caller(*state, *caller) is Some),
        r is Ok ==> r->Ok_0 == active_caller(*state, *caller)->Some_0,
        r is Err ==> resolution_error(*state, *caller, r->Err_0),
{
    get_caller_user(state, caller)
}

/// The caller's record if it is an active Student or above, that is any
/// active user.
pub fn require_student(state: &TenantState, caller: &Option<String>) -> (r: LMSResult<User>)
    requires
        state.wf(),
    ensures
        r is Ok == (active_caller(*state, *caller) is Some),
        r is Ok ==> r->Ok_0 == active_caller(*state, *caller)->Some_0,
        r is Err ==> resolution_error(*state, *caller, r->Err_0),
{
    let user = get_caller_user(state, caller)?;
    if user.role.has_permission_level(&UserRole::Student) {
        Ok(user)
    } else {
        Err(LMSError::unauthorized_access("student access", "Student"))
    }
}

/// The caller may read the data of user `target`: admins any user's,
/// anyone their own, an instructor a student's.
pub open spec fn may_access_user(state: TenantState, caller: Option<String>, target: Seq<char>) -> bool {
    is_router_admin(state, caller) || active_caller(state, caller) is Some && {
        let me = active_caller(state, caller)->Some_0;
        let t = lookup_user(state.users(), target);
        is_admin_role(me.role) || me.id@ == target || (me.role == UserRole::Instructor && t is Some
            && t->Some_0.role == UserRole::Student)
    }
}

/// Whether the caller may read the data of user `target_user_id`: admins
/// always, anyone their own, an instructor a student's; otherwise access
/// is denied.
pub fn can_access_user_data(state: &TenantState, caller: &Option<String>, target_user_id: &str) -> (r: LMSResult<()>)
    requires
        state.wf(),
    ensures
        r is Ok == may_access_user(*state, *caller, target_user_id@),
        !is_router_admin(*state, *caller) && active_caller(*state, *caller) is None ==> r is Err && resolution_error(*state, *caller, r->Err_0),
        !is_router_admin(*state, *caller) && active_caller(*state, *caller) is Some ==> {
            let me = active_caller(*state, *caller)->Some_0;
            let target = lookup_user(state.users(), target_user_id@);
            &&& (r is Ok <==> (is_admin_role(me.role) || me.id@ == target_user_id@ || (me.role
                == UserRole::Instructor && target is Some && target->Some_0.role == UserRole::Student)))
            &&& (r is Err && me.role == UserRole::Instructor && target is None ==> r->Err_0 is NotFound)
            &&& (r is Err && !(me.role == UserRole::Instructor && target is None) ==> r->Err_0 is AccessDenied)
        },
{
    if check_router_admin(state, caller) {
        return Ok(());
    }
    let me = get_caller_user(state, caller)?;
    if me.role.can_manage_users() {
        return Ok(());
    }
    let target = String::from_str(target_user_id);
    if me.id == target {
        return Ok(());
    }
    if me.role == UserRole::Instructor {
        match state.find_user(&target) {
            Some(i) => {
                proof {
                    lemma_lookup_at(state.users(), target@, i as int);
                }
                if state.user_records()[i].role == UserRole::Student {
                    Ok(())
                } else {
                    Err(LMSError::AccessDenied(text("Instructors can only access student data")))
                }
            },
            None => Err(LMSError::user_not_found(target_user_id)),
        }
    } else {
        Err(LMSError::AccessDenied(text("Can only access your own user data")))
    }
}

/// The caller may modify user `target`: the target exists, and the caller
/// is the router-designated administrator or an active administrator (an
/// Admin does not touch a TenantAdmin).
pub open spec fn may_modify_user(state: TenantState, caller: Option<String>, target: Seq<char>) -> bool {
    (is_router_admin(state, caller) && lookup_user(state.users(), target) is Some) || active_caller(state, caller) is Some && {
        let me = active_caller(state, caller)->Some_0;
        let t = lookup_user(state.users(), target);
        is_admin_role(me.role) && t is Some && (me.role == UserRole::TenantAdmin || t->Some_0.role
            != UserRole::TenantAdmin)
    }
}

/// The caller may hand out `role`: the router-designated administrator and
/// a TenantAdmin any role, an Admin any but TenantAdmin.
pub open spec fn may_assign(state: TenantState, caller: Option<String>, role: UserRole) -> bool {
    is_router_admin(state, caller) || active_caller(state, caller) is Some && {
        let me = active_caller(state, caller)->Some_0;
        me.role == UserRole::TenantAdmin || (me.role == UserRole::Admin && role != UserRole::TenantAdmin)
    }
}

/// Whether the caller may modify user `target_user_id`: only administrators
/// may, and an Admin may not modify a TenantAdmin.
pub fn can_modify_user(state: &TenantState, caller: &Option<String>, target_user_id: &str) -> (r: LMSResult<()>)
    requires
        state.wf(),
    ensures
        r is Ok == may_modify_user(*state, *caller, target_user_id@),
        is_router_admin(*state, *caller) && r is Err ==> r->Err_0 is NotFound,
        !is_router_admin(*state, *caller) && active_caller(*state, *caller) is None ==> r is Err && resolution_error(*state, *caller, r->Err_0),
        !is_router_admin(*state, *caller) && active_caller(*state, *caller) is Some ==> {
            let me = active_caller(*state, *caller)->Some_0;
            let target = lookup_user(state.users(), target_user_id@);
            &&& (!is_admin_role(me.role) ==> r is Err && r->Err_0 is AccessDenied)
            &&& (is_admin_role(me.role) && target is None ==> r is Err && r->Err_0 is NotFound)
            &&& (is_admin_role(me.role) && target is Some ==> (r is Ok <==> (me.role == UserRole::TenantAdmin
                || target->Some_0.role != UserRole::TenantAdmin)))
            &&& (is_admin_role(me.role) && target is Some && r is Err ==> r->Err_0 is InsufficientPermissions)
        },
{
    let target = String::from_str(target_user_id);
    if check_router_admin(state, caller) {
        return match state.find_user(&target) {
            Some(i) => {
                proof {
                    lemma_lookup_at(state.users(), target@, i as int);
                }
                Ok(())
            },
            None => Err(LMSError::user_not_found(target_user_id)),
        };
    }
    let me = get_caller_user(state, caller)?;
    if !me.role.can_manage_users() {
        return Err(LMSError::unauthorized_access("modify user", "Admin"));
    }
    match state.find_user(&target) {
        Some(i) => {
            proof {
                lemma_lookup_at(state.users(), target@, i as int);
            }
            if me.role == UserRole::TenantAdmin {
                Ok(())
            } else if state.user_records()[i].role == UserRole::TenantAdmin {
                Err(LMSError::InsufficientPermissions(text("Cannot modify TenantAdmin accounts")))
            } else {
                Ok(())
            }
        },
        None => Err(LMSError::user_not_found(target_user_id)),
    }
}

/// Whether the caller may hand out `new_role`: a TenantAdmin any role, an
/// Admin any but TenantAdmin, nobody else any.
pub fn can_assign_role(state: &TenantState, caller: &Option<String>, new_role: &UserRole) -> (r: LMSResult<()>)
    requires
        state.wf(),
    ensures
        r is Ok == may_assign(*state, *caller, *new_role),
        !is_router_admin(*state, *caller) && active_caller(*state, *caller) is None ==> r is Err && resolution_error(*state, *caller, r->Err_0),
        !is_router_admin(*state, *caller) && active_caller(*state, *caller) is Some ==> {
            let me = active_caller(*state, *caller)->Some_0;
            &&& (r is Ok <==> (me.role == UserRole::TenantAdmin || (me.role == UserRole::Admin && *new_role
                != UserRole::TenantAdmin)))
            &&& (r is Err ==> r->Err_0 is InvalidRoleAssignment && r->Err_0.msg() == "Cannot assign role '"@
                + role_name(*new_role) + "' with current permissions"@)
        },
{
    if check_router_admin(state, caller) {
        return Ok(());
    }
    let me = get_caller_user(state, caller)?;
    if me.role.can_assign_role(new_role) {
        Ok(())
    } else {
        Err(LMSError::InvalidRoleAssignment(join3("Cannot assign role '", new_role.as_str(), "' with current permissions")))
    }
}

/// Whether the caller may change course `course`: it teaches the course, or
/// it has administrator rights. Decided afresh for each course.
pub fn can_modify_course(state: &TenantState, caller: &Option<String>, course: &Course) -> (r: bool)
    requires
        state.wf(),
    ensures
        r == ((caller is Some && lists(course.instructor_ids@, caller->Some_0@)) || is_router_admin(*state, *caller)
            || (active_caller(*state, *caller) is Some && is_admin_role(active_caller(*state, *caller)->Some_0.role))),
{
    match caller {
        Some(c) => {
            if contains_text(&course.instructor_ids, c) {
                return true;
            }
        },
        None => {},
    }
    is_admin_compat(state, caller).is_ok()
}

/// The audit line for one authorization decision.
pub fn log_rbac_action(action: &str, success: bool, caller_id: &str, user_id: Option<&str>) -> (r: String)
    ensures
        r@ == "RBAC: action='"@ + action@ + "', caller='"@ + caller_id@ + "', target_user='"@ + (match user_id {
            Some(u) => u@,
            None => "unknown"@,
        }) + "', success="@ + (if success { "true"@ } else { "false"@ }),
{
    let mut r = text("RBAC: action='");
    r.append(action);
    r.append("', caller='");
    r.append(caller_id);
    r.append("', target_user='");
    match user_id {
        Some(u) => r.append(u),
        None => r.append("unknown"),
    }
    r.append("', success=");
    if success {
        r.append("true");
    } else {
        r.append("false");
    }
    r
}

} // verus!
