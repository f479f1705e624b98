use vstd::prelude::*;
use vstd::string::StrSliceExecFns;
use vstd::string::StringExecFns;
use crate::error::{join2, text, LMSError, LMSResult};
use crate::inspection::texts_are;
use crate::user::{User, UserRole};
use crate::utils::{code_text, generate_random_string, has_char, contains_char, lowercase, lowercase_text, trim_text, trimmed};

verus! {

/// Status of an imported identity record.
#[derive(Debug, Clone, Copy, PartialEq, Eq, Structural)]
pub enum PreProvisionStatus {
    Imported,
    PendingVerification,
    Verified,
    Linked,
    Expired,
}

/// An identity imported from a university's records, not yet linked to a
/// login identity.
#[derive(Debug, Clone, PartialEq, Eq)]
pub struct PreProvisionedUser {
    pub university_id: String,
    pub email: String,
    pub name: String,
    pub role: UserRole,
    pub department: Option<String>,
    pub year_of_study: Option<u32>,
    pub course_codes: Vec<String>,
    pub created_at: u64,
    pub ii_principal: Option<String>,
    pub is_verified: bool,
    pub verification_code: Option<String>,
    pub verification_expires: Option<u64>,
    pub status: PreProvisionStatus,
}

/// One row of a university's import file.
#[derive(Debug, Clone, PartialEq, Eq)]
pub struct UniversityImportRecord {
    pub university_id: String,
    pub email: String,
    pub name: String,
    pub role: String,
    pub department: Option<String>,
    pub year_of_study: Option<u32>,
    pub course_codes: String,
}

/// A request to check an emailed verification code.
#[derive(Debug, Clone, PartialEq, Eq)]
pub struct EmailVerificationRequest {
    pub university_id: String,
    pub email: String,
    pub verification_code: String,
}

/// A request to link a login identity after verification.
#[derive(Debug, Clone, PartialEq, Eq)]
pub struct IILinkingRequest {
    pub university_id: String,
    pub email: String,
    pub verification_code: String,
}

/// Counts of a bulk import.
#[derive(Debug, Clone, PartialEq, Eq)]
pub struct ImportStats {
    pub total_imported: u32,
    pub students_imported: u32,
    pub staff_imported: u32,
    pub errors: Vec<String>,
    pub timestamp: u64,
}


/// The role named in an import file (matched in lower case), if any.
pub open spec fn role_named(s: Seq<char>) -> Option<UserRole> {
    if s == "student"@ {
        Some(UserRole::Student)
    } else if s == "instructor"@ || s == "faculty"@ || s == "teacher"@ {
        Some(UserRole::Instructor)
    } else if s == "admin"@ || s == "administrator"@ {
        Some(UserRole::Admin)
    } else if s == "tenant_admin"@ || s == "tenantadmin"@ {
        Some(UserRole::TenantAdmin)
    } else {
        None
    }
}

fn parse_role(s: &String) -> (r: Option<UserRole>)
    ensures
        r == role_named(s@),
{
    if *s == text("student") {
        Some(UserRole::Student)
    } else if *s == text("instructor") || *s == text("faculty") || *s == text("teacher") {
        Some(UserRole::Instructor)
    } else if *s == text("admin") || *s == text("administrator") {
        Some(UserRole::Admin)
    } else if *s == text("tenant_admin") || *s == text("tenantadmin") {
        Some(UserRole::TenantAdmin)
    } else {
        None
    }
}

/// The pieces of `s` between commas (one more than there are commas).
pub open spec fn comma_pieces(s: Seq<char>) -> Seq<Seq<char>>
    decreases s.len(),
{
    if s.len() == 0 {
        seq![Seq::empty()]
    } else {
        let before = comma_pieces(s.drop_last());
        if s.last() == ',' {
            before.push(Seq::empty())
        } else {
            before.drop_last().push(before.last().push(s.last()))
        }
    }
}

/// The trimmed pieces that are not empty, in order.
pub open spec fn kept_codes(ps: Seq<Seq<char>>) -> Seq<Seq<char>>
    decreases ps.len(),
{
    if ps.len() == 0 {
        seq![]
    } else {
        let rest = kept_codes(ps.drop_last());
        if trimmed(ps.last()).len() > 0 {
            rest.push(trimmed(ps.last()))
        } else {
            rest
        }
    }
}

proof fn lemma_pieces_nonempty(s: Seq<char>)
    ensures
        comma_pieces(s).len() >= 1,
    decreases s.len(),
{
    if s.len() > 0 {
        lemma_pieces_nonempty(s.drop_last());
    }
}

/// Splits a comma-separated list of course codes, trimming each and
/// dropping the empty ones.
pub fn parse_course_codes(s: &str) -> (r: Vec<String>)
    ensures
        texts_are(r@, kept_codes(comma_pieces(s@))),
{
    let n = s.unicode_len();
    let mut codes: Vec<String> = Vec::new();
    let mut piece = String::new();
    let mut i: usize = 0;
    proof {
        assert(s@.take(0) =~= Seq::<char>::empty());
    }
    while i < n
        invariant
            n == s@.len(),
            i <= n,
            comma_pieces(s@.take(i as int)).len() >= 1,
            piece@ == comma_pieces(s@.take(i as int)).last(),
            texts_are(codes@, kept_codes(comma_pieces(s@.take(i as int)).drop_last())),
        decreases n - i,
    {
        let ghost pre = s@.take(i as int);
        let ghost post = s@.take(i as int + 1);
        assert(post.drop_last() =~= pre);
        assert(post.last() == s@[i as int]);
        proof {
            lemma_pieces_nonempty(pre);
        }
        let c = s.get_char(i);
        if c == ',' {
            let t = trim_text(piece.as_str());
            let ghost ps = comma_pieces(pre);
            assert(comma_pieces(post) == ps.push(Seq::<char>::empty()));
            assert(comma_pieces(post).drop_last() =~= ps);
            assert(ps.drop_last().push(ps.last()) =~= ps);
            if t.as_str().unicode_len() > 0 {
                codes.push(t);
            }
            piece = String::new();
        } else {
            let ghost ps = comma_pieces(pre);
            let mut one = String::new();
            one.append(s.substring_char(i, i + 1));
            assert(s@.subrange(i as int, i as int + 1) =~= seq![c]);
            piece.append(one.as_str());
            assert(comma_pieces(post) == ps.drop_last().push(ps.last().push(c)));
            assert(comma_pieces(post).drop_last() =~= ps.drop_last());
            assert(piece@ =~= ps.last().push(c));
        }
        i += 1;
    }
    assert(s@.take(n as int) =~= s@);
    let t = trim_text(piece.as_str());
    let ghost ps = comma_pieces(s@);
    assert(ps.drop_last().push(ps.last()) =~= ps);
    if t.as_str().unicode_len() > 0 {
        codes.push(t);
    }
    codes
}

/// Whether an import record has what a pre-provisioned identity needs: a
/// university id, an email with an `@`, a name and a known role.
pub open spec fn import_ok(r: UniversityImportRecord) -> bool {
    row_ok(r.university_id@, r)
}

/// Whether a row, with university id `id`, can be imported.
pub open spec fn row_ok(id: Seq<char>, r: UniversityImportRecord) -> bool {
    &&& trimmed(id).len() > 0
    &&& trimmed(r.email@).len() > 0
    &&& has_char(r.email@, '@')
    &&& trimmed(r.name@).len() > 0
    &&& role_named(lowercase(r.role@)) is Some
}

/// The expiry of a code generated at `now`: one hour later (in
/// nanoseconds), saturating at the largest time.
pub open spec fn expiry_after(now: u64) -> u64 {
    if now > u64::MAX - 3_600_000_000_000 {
        u64::MAX
    } else {
        (now + 3_600_000_000_000) as u64
    }
}

/// The record after its code was accepted: verified, code cleared.
pub open spec fn after_verify(u: PreProvisionedUser) -> PreProvisionedUser {
    PreProvisionedUser {
        is_verified: true,
        status: PreProvisionStatus::Verified,
        verification_code: None,
        verification_expires: None,
        ..u
    }
}

/// The record after identity `p` was linked to it.
pub open spec fn after_link(u: PreProvisionedUser, p: String) -> PreProvisionedUser {
    PreProvisionedUser { ii_principal: Some(p), status: PreProvisionStatus::Linked, ..u }
}

/// Whether an identity may be linked to the record now.
pub open spec fn can_link(u: PreProvisionedUser) -> bool {
    u.is_verified && u.ii_principal is None
}

/// The identity-linking lifecycle: linking needs a verified record;
/// accepting the code verifies the record and clears the code, after which
/// an unlinked record can be linked; and once linked, no second link is
/// possible, while the record is ready to become a user.
pub proof fn lemma_pre_provision_lifecycle(u: PreProvisionedUser, p: String, q: String)
    ensures
        !u.is_verified ==> !can_link(u),
        after_verify(u).status == PreProvisionStatus::Verified,
        after_verify(u).verification_code is None,
        u.ii_principal is None ==> can_link(after_verify(u)),
        !can_link(after_link(after_verify(u), p)),
        after_link(after_verify(u), p).status == PreProvisionStatus::Linked,
        after_link(after_verify(u), p).is_verified,
        !can_link(after_link(u, q)),
{
}

/// `u` is what importing row `r` under university id `id` at time `now`
/// gives: trimmed fields, a lower-case email, the parsed role and course
/// codes, and a fresh, unverified, unlinked status.
pub open spec fn imported_from(u: PreProvisionedUser, r: UniversityImportRecord, id: Seq<char>, now: u64) -> bool {
    &&& u.university_id@ == trimmed(id)
    &&& u.email@ == lowercase(trimmed(r.email@))
    &&& u.name@ == trimmed(r.name@)
    &&& Some(u.role) == role_named(lowercase(r.role@))
    &&& u.department is Some == r.department is Some
    &&& (u.department is Some ==> u.department->Some_0@ == trimmed(r.department->Some_0@))
    &&& u.year_of_study == r.year_of_study
    &&& texts_are(u.course_codes@, kept_codes(comma_pieces(r.course_codes@)))
    &&& u.created_at == now
    &&& u.ii_principal is None
    &&& !u.is_verified
    &&& u.verification_code is None
    &&& u.verification_expires is None
    &&& u.status == PreProvisionStatus::Imported
}

impl PreProvisionedUser {
    /// Builds an imported identity from a row of a university's import
    /// file, at time `now`. Fields are trimmed, the email lower-cased, the
    /// role parsed and the course codes split.
    pub fn from_import_record(record: UniversityImportRecord, tenant_id: &str, now: u64) -> (r: LMSResult<Self>)
        ensures
            r is Ok == import_ok(record),
            r is Err ==> r->Err_0 is ValidationError,
            r is Ok ==> imported_from(r->Ok_0, record, record.university_id@, now),
            r is Ok ==> {
                let u = r->Ok_0;
                &&& u.university_id@ == trimmed(record.university_id@)
                &&& u.email@ == lowercase(trimmed(record.email@))
                &&& u.name@ == trimmed(record.name@)
                &&& Some(u.role) == role_named(lowercase(record.role@))
                &&& u.department is Some == record.department is Some
                &&& (u.department is Some ==> u.department->Some_0@ == trimmed(record.department->Some_0@))
                &&& u.year_of_study == record.year_of_study
                &&& texts_are(u.course_codes@, kept_codes(comma_pieces(record.course_codes@)))
                &&& u.created_at == now
                &&& u.ii_principal is None
                &&& !u.is_verified
                &&& u.verification_code is None
                &&& u.verification_expires is None
                &&& u.status == PreProvisionStatus::Imported
            },
    {
        let university_id = trim_text(record.university_id.as_str());
        if university_id.as_str().unicode_len() == 0 {
            return Err(LMSError::ValidationError(text("University ID cannot be empty")));
        }
        let email = trim_text(record.email.as_str());
        if email.as_str().unicode_len() == 0 || !contains_char(record.email.as_str(), '@') {
            return Err(LMSError::ValidationError(text("Valid email is required")));
        }
        let name = trim_text(record.name.as_str());
        if name.as_str().unicode_len() == 0 {
            return Err(LMSError::ValidationError(text("Name cannot be empty")));
        }
        let role_text = lowercase_text(record.role.as_str());
        let role = match parse_role(&role_text) {
            Some(role) => role,
            None => {
                return Err(LMSError::ValidationError(join2("Invalid role: ", record.role.as_str())));
            },
        };
        let course_codes = parse_course_codes(record.course_codes.as_str());
        let department = match &record.department {
            Some(d) => Some(trim_text(d.as_str())),
            None => None,
        };
        Ok(
            PreProvisionedUser {
                university_id,
                email: lowercase_text(email.as_str()),
                name,
                role,
                department,
                year_of_study: record.year_of_study,
                course_codes,
                created_at: now,
                ii_principal: None,
                is_verified: false,
                verification_code: None,
                verification_expires: None,
                status: PreProvisionStatus::Imported,
            },
        )
    }

    /// Issues a six-digit verification code drawn from the time `now`,
    /// valid for an hour, and moves the record to PendingVerification.
    pub fn generate_verification_code(&mut self, now: u64) -> (r: String)
        ensures
            r@ == code_text(now as nat, 6),
            final(self).verification_code is Some && final(self).verification_code->Some_0@ == r@,
            final(self).verification_expires == Some(expiry_after(now)),
            *final(self) == (PreProvisionedUser {
                verification_code: final(self).verification_code,
                verification_expires: Some(expiry_after(now)),
                status: PreProvisionStatus::PendingVerification,
                ..*old(self)
            }),
    {
        let code = generate_random_string(6, now);
        let expires_at = if now > u64::MAX - 3_600_000_000_000 {
            u64::MAX
        } else {
            now + 3_600_000_000_000
        };
        self.verification_code = Some(code.clone());
        self.verification_expires = Some(expires_at);
        self.status = PreProvisionStatus::PendingVerification;
        code
    }

    /// Checks `provided_code` at time `now`. A code past its expiry moves
    /// the record to Expired; a wrong code changes nothing; the right code
    /// verifies the record and clears the stored code.
    pub fn verify_code(&mut self, provided_code: &str, now: u64) -> (r: LMSResult<()>)
        ensures
            r is Err ==> r->Err_0 is ValidationError,
            (old(self).verification_code is None || old(self).verification_expires is None) ==> r is Err
                && *final(self) == *old(self),
            old(self).verification_code is Some && old(self).verification_expires is Some ==> {
                let code = old(self).verification_code->Some_0;
                let exp = old(self).verification_expires->Some_0;
                &&& (now > exp ==> r is Err && *final(self) == (PreProvisionedUser { status: PreProvisionStatus::Expired, ..*old(self) }))
                &&& (now <= exp && code@ != provided_code@ ==> r is Err && *final(self) == *old(self))
                &&& (now <= exp && code@ == provided_code@ ==> r is Ok && *final(self) == after_verify(*old(self)))
            },
    {
        let (stored_code, expires_at) = match (&self.verification_code, self.verification_expires) {
            (Some(c), Some(e)) => (c.clone(), e),
            _ => {
                return Err(LMSError::ValidationError(text("No verification code found")));
            },
        };
        if now > expires_at {
            self.status = PreProvisionStatus::Expired;
            return Err(LMSError::ValidationError(text("Verification code has expired")));
        }
        if stored_code == String::from_str(provided_code) {
            self.is_verified = true;
            self.status = PreProvisionStatus::Verified;
            self.verification_code = None;
            self.verification_expires = None;
            Ok(())
        } else {
            Err(LMSError::ValidationError(text("Invalid verification code")))
        }
    }

    /// Links a login identity to a verified record, once.
    pub fn link_ii_principal(&mut self, principal: String) -> (r: LMSResult<()>)
        ensures
            r is Ok == can_link(*old(self)),
            r is Err ==> r->Err_0 is ValidationError && *final(self) == *old(self),
            r is Ok ==> *final(self) == after_link(*old(self), principal),
    {
        if !self.is_verified {
            return Err(LMSError::ValidationError(text("Email must be verified before linking II principal")));
        }
        if self.ii_principal.is_some() {
            return Err(LMSError::ValidationError(text("II principal already linked")));
        }
        self.ii_principal = Some(principal);
        self.status = PreProvisionStatus::Linked;
        Ok(())
    }

    /// Whether the record can become a full user: verified and linked.
    pub fn is_ready_for_activation(&self) -> (r: bool)
        ensures
            r == (self.is_verified && self.ii_principal is Some && self.status == PreProvisionStatus::Linked),
    {
        self.is_verified && self.ii_principal.is_some() && matches!(self.status, PreProvisionStatus::Linked)
    }

    /// The full user that a linked record becomes, in tenant `tenant_id`, at
    /// time `now`.
    pub fn to_user(&self, tenant_id: &str, now: u64) -> (r: LMSResult<User>)
        ensures
            r is Ok == (self.is_verified && self.ii_principal is Some && self.status == PreProvisionStatus::Linked),
            r is Err ==> r->Err_0 is ValidationError,
            r is Ok ==> r->Ok_0 == (User {
                id: self.ii_principal->Some_0,
                name: self.name,
                email: self.email,
                role: self.role,
                tenant_id: r->Ok_0.tenant_id,
                created_at: now,
                updated_at: now,
                is_active: true,
            }) && r->Ok_0.tenant_id@ == tenant_id@,
    {
        if !self.is_ready_for_activation() {
            return Err(LMSError::ValidationError(text("User not ready for activation")));
        }
        let principal = match &self.ii_principal {
            Some(p) => p.clone(),
            None => {
                return Err(LMSError::ValidationError(text("II principal not set")));
            },
        };
        Ok(
            User {
                id: principal,
                name: self.name.clone(),
                email: self.email.clone(),
                role: self.role,
                tenant_id: String::from_str(tenant_id),
                created_at: now,
                updated_at: now,
                is_active: true,
            },
        )
    }
}
} // verus!
