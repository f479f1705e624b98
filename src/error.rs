use vstd::prelude::*;
use vstd::string::StringExecFns;

verus! {

/// Error kinds shared by every operation of the platform. Each carries a
/// human-readable message.
#[derive(Debug, Clone, PartialEq, Eq)]
pub enum LMSError {
    NotFound(String),
    Unauthorized(String),
    ValidationError(String),
    InternalError(String),
    AlreadyExists(String),
    InvalidRole(String),
    InitializationError(String),
    AccessDenied(String),
    InsufficientPermissions(String),
    UserNotAuthenticated(String),
    RoleNotFound(String),
    InvalidRoleAssignment(String),
}

pub type LMSResult<T> = Result<T, LMSError>;

/// The text of a string literal, for building messages.
pub fn text(s: &str) -> (r: String)
    ensures
        r@ == s@,
{
    String::from_str(s)
}

/// Concatenation of two pieces.
pub fn join2(a: &str, b: &str) -> (r: String)
    ensures
        r@ == a@ + b@,
{
    let mut r = String::from_str(a);
    r.append(b);
    r
}

/// Concatenation of three pieces.
pub fn join3(a: &str, b: &str, c: &str) -> (r: String)
    ensures
        r@ == a@ + b@ + c@,
{
    let mut r = String::from_str(a);
    r.append(b);
    r.append(c);
    r
}

/// Concatenation of five pieces.
pub fn join5(a: &str, b: &str, c: &str, d: &str, e: &str) -> (r: String)
    ensures
        r@ == a@ + b@ + c@ + d@ + e@,
{
    let mut r = String::from_str(a);
    r.append(b);
    r.append(c);
    r.append(d);
    r.append(e);
    r
}

impl LMSError {
    /// The message carried by any kind of error.
    pub open spec fn msg(&self) -> Seq<char> {
        match self {
            LMSError::NotFound(m) => m@,
            LMSError::Unauthorized(m) => m@,
            LMSError::ValidationError(m) => m@,
            LMSError::InternalError(m) => m@,
            LMSError::AlreadyExists(m) => m@,
            LMSError::InvalidRole(m) => m@,
            LMSError::InitializationError(m) => m@,
            LMSError::AccessDenied(m) => m@,
            LMSError::InsufficientPermissions(m) => m@,
            LMSError::UserNotAuthenticated(m) => m@,
            LMSError::RoleNotFound(m) => m@,
            LMSError::InvalidRoleAssignment(m) => m@,
        }
    }

    /// Error for an action that needs a higher role.
    pub fn unauthorized_access(action: &str, required_role: &str) -> (r: Self)
        ensures
            r is AccessDenied,
            r.msg() == "Access denied: '"@ + action@ + "' requires '"@ + required_role@
                + "' role or higher"@,
    {
        LMSError::AccessDenied(join5("Access denied: '", action, "' requires '", required_role, "' role or higher"))
    }

    /// Error for an identity that has no user record.
    pub fn user_not_found(user_id: &str) -> (r: Self)
        ensures
            r is NotFound,
            r.msg() == "User '"@ + user_id@ + "' not found in tenant"@,
    {
        LMSError::NotFound(join3("User '", user_id, "' not found in tenant"))
    }

    /// Error for an action attempted without an identity.
    pub fn authentication_required(action: &str) -> (r: Self)
        ensures
            r is UserNotAuthenticated,
            r.msg() == "Authentication required for action: '"@ + action@ + "'"@,
    {
        LMSError::UserNotAuthenticated(join3("Authentication required for action: '", action, "'"))
    }

    /// The label that precedes the message when the error is shown.
    pub open spec fn label(&self) -> Seq<char> {
        match self {
            LMSError::NotFound(_) => "Not found: "@,
            LMSError::Unauthorized(_) => "Unauthorized: "@,
            LMSError::ValidationError(_) => "Validation error: "@,
            LMSError::InternalError(_) => "Internal error: "@,
            LMSError::AlreadyExists(_) => "Already exists: "@,
            LMSError::InvalidRole(_) => "Invalid role: "@,
            LMSError::InitializationError(_) => "Initialization error: "@,
            LMSError::AccessDenied(_) => "Access denied: "@,
            LMSError::InsufficientPermissions(_) => "Insufficient permissions: "@,
            LMSError::UserNotAuthenticated(_) => "User not authenticated: "@,
            LMSError::RoleNotFound(_) => "Role not found: "@,
            LMSError::InvalidRoleAssignment(_) => "Invalid role assignment: "@,
        }
    }

    /// The label, as text.
    pub fn kind_label(&self) -> (r: &'static str)
        ensures
            r@ == self.label(),
    {
        match self {
            LMSError::NotFound(_) => "Not found: ",
            LMSError::Unauthorized(_) => "Unauthorized: ",
            LMSError::ValidationError(_) => "Validation error: ",
            LMSError::InternalError(_) => "Internal error: ",
            LMSError::AlreadyExists(_) => "Already exists: ",
            LMSError::InvalidRole(_) => "Invalid role: ",
            LMSError::InitializationError(_) => "Initialization error: ",
            LMSError::AccessDenied(_) => "Access denied: ",
            LMSError::InsufficientPermissions(_) => "Insufficient permissions: ",
            LMSError::UserNotAuthenticated(_) => "User not authenticated: ",
            LMSError::RoleNotFound(_) => "Role not found: ",
            LMSError::InvalidRoleAssignment(_) => "Invalid role assignment: ",
        }
    }

    /// The message, borrowed.
    pub fn message(&self) -> (r: &String)
        ensures
            r@ == self.msg(),
    {
        match self {
            LMSError::NotFound(m) => m,
            LMSError::Unauthorized(m) => m,
            LMSError::ValidationError(m) => m,
            LMSError::InternalError(m) => m,
            LMSError::AlreadyExists(m) => m,
            LMSError::InvalidRole(m) => m,
            LMSError::InitializationError(m) => m,
            LMSError::AccessDenied(m) => m,
            LMSError::InsufficientPermissions(m) => m,
            LMSError::UserNotAuthenticated(m) => m,
            LMSError::RoleNotFound(m) => m,
            LMSError::InvalidRoleAssignment(m) => m,
        }
    }

    /// The error as shown to a person: its kind, then its message.
    pub fn to_display_string(&self) -> (r: String)
        ensures
            r@ == self.label() + self.msg(),
    {
        let mut r = String::from_str(self.kind_label());
        r.append(self.message().as_str());
        r
    }
}

} // verus!
