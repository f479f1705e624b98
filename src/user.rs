use vstd::prelude::*;

verus! {

/// Roles of a tenant's users, from least to most privileged.
#[derive(Debug, Clone, Copy, PartialEq, Eq, Hash, Structural)]
pub enum UserRole {
    Student,
    Instructor,
    Admin,
    TenantAdmin,
}

/// Level of a role in the hierarchy: Student 1, Instructor 2, Admin 3,
/// TenantAdmin 4.
pub open spec fn role_level(r: UserRole) -> int {
    match r {
        UserRole::Student => 1,
        UserRole::Instructor => 2,
        UserRole::Admin => 3,
        UserRole::TenantAdmin => 4,
    }
}

/// Admin or TenantAdmin.
pub open spec fn is_admin_role(r: UserRole) -> bool {
    r == UserRole::Admin || r == UserRole::TenantAdmin
}

/// Name of a role as shown to people.
pub open spec fn role_name(r: UserRole) -> Seq<char> {
    match r {
        UserRole::Student => "Student"@,
        UserRole::Instructor => "Instructor"@,
        UserRole::Admin => "Admin"@,
        UserRole::TenantAdmin => "TenantAdmin"@,
    }
}

impl Default for UserRole {
    fn default() -> (r: Self)
        ensures
            r == UserRole::Student,
    {
        UserRole::Student
    }
}

impl UserRole {
    /// Position of the role in the hierarchy (higher means more permissions).
    pub fn hierarchy_level(&self) -> (r: u8)
        ensures
            r as int == role_level(*self),
    {
        match self {
            UserRole::Student => 1,
            UserRole::Instructor => 2,
            UserRole::Admin => 3,
            UserRole::TenantAdmin => 4,
        }
    }

    /// Whether this role is at least as privileged as `required_role`.
    pub fn has_permission_level(&self, required_role: &UserRole) -> (r: bool)
        ensures
            r == (role_level(*self) >= role_level(*required_role)),
    {
        self.hierarchy_level() >= required_role.hierarchy_level()
    }

    pub fn can_create_course(&self) -> (r: bool)
        ensures
            r == (role_level(*self) >= 2),
    {
        matches!(self, UserRole::Instructor | UserRole::Admin | UserRole::TenantAdmin)
    }

    /// Admins may edit any course; an instructor only a course they teach.
    pub fn can_edit_course(&self, is_course_owner: bool) -> (r: bool)
        ensures
            r == (is_admin_role(*self) || (*self == UserRole::Instructor && is_course_owner)),
    {
        match self {
            UserRole::TenantAdmin | UserRole::Admin => true,
            UserRole::Instructor => is_course_owner,
            UserRole::Student => false,
        }
    }

    /// Admins may delete any course; an instructor only a course they teach.
    pub fn can_delete_course(&self, is_course_owner: bool) -> (r: bool)
        ensures
            r == (is_admin_role(*self) || (*self == UserRole::Instructor && is_course_owner)),
    {
        match self {
            UserRole::TenantAdmin | UserRole::Admin => true,
            UserRole::Instructor => is_course_owner,
            UserRole::Student => false,
        }
    }

    pub fn can_manage_users(&self) -> (r: bool)
        ensures
            r == is_admin_role(*self),
    {
        matches!(self, UserRole::Admin | UserRole::TenantAdmin)
    }

    pub fn can_view_all_users(&self) -> (r: bool)
        ensures
            r == (role_level(*self) >= 2),
    {
        matches!(self, UserRole::Instructor | UserRole::Admin | UserRole::TenantAdmin)
    }

    /// A TenantAdmin may assign any role; an Admin any role but TenantAdmin;
    /// nobody else any role.
    pub fn can_assign_role(&self, target_role: &UserRole) -> (r: bool)
        ensures
            r == (*self == UserRole::TenantAdmin || (*self == UserRole::Admin && *target_role
                != UserRole::TenantAdmin)),
    {
        match self {
            UserRole::TenantAdmin => true,
            UserRole::Admin => !matches!(target_role, UserRole::TenantAdmin),
            _ => false,
        }
    }

    pub fn can_grade(&self) -> (r: bool)
        ensures
            r == (role_level(*self) >= 2),
    {
        matches!(self, UserRole::Instructor | UserRole::Admin | UserRole::TenantAdmin)
    }

    pub fn can_view_all_grades(&self) -> (r: bool)
        ensures
            r == is_admin_role(*self),
    {
        matches!(self, UserRole::Admin | UserRole::TenantAdmin)
    }

    pub fn can_manage_tenant_settings(&self) -> (r: bool)
        ensures
            r == (*self == UserRole::TenantAdmin),
    {
        matches!(self, UserRole::TenantAdmin)
    }

    pub fn can_export_data(&self) -> (r: bool)
        ensures
            r == is_admin_role(*self),
    {
        matches!(self, UserRole::Admin | UserRole::TenantAdmin)
    }

    /// Name of the role.
    pub fn as_str(&self) -> (r: &'static str)
        ensures
            r@ == role_name(*self),
    {
        match self {
            UserRole::Student => "Student",
            UserRole::Instructor => "Instructor",
            UserRole::Admin => "Admin",
            UserRole::TenantAdmin => "TenantAdmin",
        }
    }
}

/// The role hierarchy is a total order fixed by the levels: every role has its
/// own level, the levels rise strictly from Student to TenantAdmin, and a
/// Student never reaches Instructor level.
pub proof fn lemma_role_hierarchy(r: UserRole, s: UserRole)
    ensures
        role_level(r) >= role_level(r),
        role_level(UserRole::TenantAdmin) > role_level(UserRole::Admin) > role_level(
            UserRole::Instructor,
        ) > role_level(UserRole::Student),
        role_level(UserRole::Student) == 1 && role_level(UserRole::Instructor) == 2
            && role_level(UserRole::Admin) == 3 && role_level(UserRole::TenantAdmin) == 4,
        !(role_level(UserRole::Student) >= role_level(UserRole::Instructor)),
        role_level(r) == role_level(s) ==> r == s,
{
}

/// A member of one tenant.
#[derive(Debug, Clone, PartialEq, Eq)]
pub struct User {
    pub id: String,
    pub name: String,
    pub email: String,
    pub role: UserRole,
    pub tenant_id: String,
    pub created_at: u64,
    pub updated_at: u64,
    pub is_active: bool,
}

impl User {
    /// A field-by-field copy.
    pub fn duplicate(&self) -> (r: User)
        ensures
            r == *self,
    {
        User {
            id: self.id.clone(),
            name: self.name.clone(),
            email: self.email.clone(),
            role: self.role,
            tenant_id: self.tenant_id.clone(),
            created_at: self.created_at,
            updated_at: self.updated_at,
            is_active: self.is_active,
        }
    }
}

/// Limits and options of one tenant.
#[derive(Debug, Clone, Copy, PartialEq, Eq, Structural)]
pub struct TenantSettings {
    pub max_students: u32,
    pub max_instructors: u32,
    pub max_courses: u32,
    pub allow_public_enrollment: bool,
    pub custom_branding: bool,
}

/// The settings a new tenant starts with.
pub open spec fn default_settings() -> TenantSettings {
    TenantSettings {
        max_students: 1000,
        max_instructors: 100,
        max_courses: 500,
        allow_public_enrollment: false,
        custom_branding: false,
    }
}

impl Default for TenantSettings {
    fn default() -> (r: Self)
        ensures
            r == default_settings(),
    {
        TenantSettings {
            max_students: 1000,
            max_instructors: 100,
            max_courses: 500,
            allow_public_enrollment: false,
            custom_branding: false,
        }
    }
}

/// A provisioned university and the instance that serves it.
#[derive(Debug, Clone, PartialEq, Eq)]
pub struct Tenant {
    pub id: String,
    pub name: String,
    pub subdomain: String,
    pub canister_id: String,
    pub admin_ids: Vec<String>,
    pub created_at: u64,
    pub updated_at: u64,
    pub is_active: bool,
    pub settings: TenantSettings,
}

/// A copy of a list of strings.
pub fn copy_strings(v: &Vec<String>) -> (r: Vec<String>)
    ensures
        r@ == v@,
{
    let mut r: Vec<String> = Vec::new();
    let mut i: usize = 0;
    while i < v.len()
        invariant
            i <= v.len(),
            r@ == v@.subrange(0, i as int),
        decreases v.len() - i,
    {
        r.push(v[i].clone());
        i += 1;
    }
    assert(r@ =~= v@);
    r
}

impl Tenant {
    /// A field-by-field copy.
    pub fn duplicate(&self) -> (r: Tenant)
        ensures
            r.id == self.id,
            r.name == self.name,
            r.subdomain == self.subdomain,
            r.canister_id == self.canister_id,
            r.admin_ids@ == self.admin_ids@,
            r.created_at == self.created_at,
            r.updated_at == self.updated_at,
            r.is_active == self.is_active,
            r.settings == self.settings,
    {
        Tenant {
            id: self.id.clone(),
            name: self.name.clone(),
            subdomain: self.subdomain.clone(),
            canister_id: self.canister_id.clone(),
            admin_ids: copy_strings(&self.admin_ids),
            created_at: self.created_at,
            updated_at: self.updated_at,
            is_active: self.is_active,
            settings: self.settings,
        }
    }
}

} // verus!
