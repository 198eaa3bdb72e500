//! Organizations: request bodies, the slug rule, member roles and who may
//! manage members, invites and their links, and the member list.
use vstd::prelude::*;

use crate::auth::{trim_end_slashes, trim_trailing_slashes};
use crate::error::{bad_request, conflict, lit, AppError};
use crate::text::{chars_of, same_text, string_of};
use crate::validation::{
    email_ok, failure_if, failure_views, is_valid_email, len_within, length_ok, lowercase, note,
    outcome, to_lowercase, ValidationError,
};

verus! {

/// What `Regex::new(pattern)` and then `is_match(text)` answer (`None` when
/// the pattern does not compile).
pub uninterp spec fn regex_match(pattern: Seq<char>, text: Seq<char>) -> Option<bool>;

/// The slug pattern `^[a-z0-9][a-z0-9-]{1,39}$`.
pub open spec fn slug_pattern() -> Seq<char> {
    "^[a-z0-9][a-z0-9-]{1,39}$"@
}

/// A lower-case ASCII letter or a digit.
pub open spec fn slug_head(c: char) -> bool {
    ('a' <= c && c <= 'z') || ('0' <= c && c <= '9')
}

/// A lower-case ASCII letter, a digit or `-`.
pub open spec fn slug_tail(c: char) -> bool {
    slug_head(c) || c == '-'
}

/// What the slug pattern accepts: 2 to 40 characters, the first a lower-case
/// letter or digit, the others lower-case letters, digits or `-`.
pub open spec fn slug_shape(s: Seq<char>) -> bool {
    &&& 2 <= s.len() <= 40
    &&& slug_head(s[0])
    &&& forall|i: int| 1 <= i < s.len() ==> slug_tail(#[trigger] s[i])
}

/// `regex::Regex::new(pattern)` then `Regex::is_match(text)`; `None` when
/// the pattern does not compile. The slug pattern compiles and, with `^` and
/// `$` anchoring the whole text, matches exactly `slug_shape`.
#[verifier::external_body]
fn regex_is_match(pattern: &str, text: &str) -> (r: Option<bool>)
    ensures
        r == regex_match(pattern@, text@),
        pattern@ == slug_pattern() ==> r == Some(slug_shape(text@)),
{
    match regex::Regex::new(pattern) {
        Ok(re) => Some(re.is_match(text)),
        Err(_) => None,
    }
}

/// Whether `slug` has the slug shape.
pub fn slug_ok(slug: &str) -> (r: bool)
    ensures
        r == slug_shape(slug@),
{
    let pattern = "^[a-z0-9][a-z0-9-]{1,39}$";
    match regex_is_match(pattern, slug) {
        Some(b) => b,
        None => false,
    }
}

/// An organization as listed.
pub struct OrgDto {
    pub id: u128,
    pub name: String,
    pub slug: String,
    pub created_at: i64,
}

/// A stored organization.
pub struct OrgRecord {
    pub id: u128,
    pub name: String,
    pub slug: String,
    pub created_at: i64,
}

impl OrgDto {
    /// The listed view of an organization: all of its fields.
    pub fn from_record(m: OrgRecord) -> (r: OrgDto)
        ensures
            r == (OrgDto { id: m.id, name: m.name, slug: m.slug, created_at: m.created_at }),
    {
        OrgDto { id: m.id, name: m.name, slug: m.slug, created_at: m.created_at }
    }
}

/// `POST /orgs`.
pub struct CreateOrgInput {
    pub name: String,
    pub slug: String,
}

impl CreateOrgInput {
    /// Whether the body passes its checks.
    pub open spec fn valid(&self) -> bool {
        len_within(self.name@, 1, 80) && len_within(self.slug@, 2, 40) && slug_shape(self.slug@)
    }

    /// The failed checks, in field order, as (field, kind).
    pub open spec fn failures(&self) -> Seq<(Seq<char>, Seq<char>)> {
        failure_if(len_within(self.name@, 1, 80), "name"@, "length"@) + failure_if(len_within(self.slug@, 2, 40), "slug"@, "length"@) + failure_if(slug_shape(self.slug@), "slug"@, "regex"@)
    }

    /// Runs every check; fails with all the failed ones.
    pub fn validate(&self) -> (r: Result<(), Vec<ValidationError>>)
        ensures
            r is Ok <==> self.valid(),
            r matches Err(v) ==> failure_views(v@) == self.failures(),
    {
        let mut errs: Vec<ValidationError> = Vec::new();
        note(&mut errs, length_ok(self.name.as_str(), 1, 80), "name", "length");
        note(&mut errs, length_ok(self.slug.as_str(), 2, 40), "slug", "length");
        note(&mut errs, slug_ok(self.slug.as_str()), "slug", "regex");
        outcome(errs)
    }
}

/// A membership: who belongs to which organization, with which role.
pub struct MembershipRecord {
    pub id: u128,
    pub org_id: u128,
    pub user_id: u128,
    pub role: String,
    pub created_at: i64,
}

/// A member as listed.
pub struct MemberDto {
    pub user_id: u128,
    pub email: String,
    pub role: String,
    pub created_at: i64,
}

/// `POST /orgs/{id}/members`.
pub struct AddMemberInput {
    pub email: String,
    pub role: String,
}

/// `POST /orgs/{id}/invites`.
pub struct InviteInput {
    pub email: String,
    pub role: String,
}

impl AddMemberInput {
    /// Whether the body passes its checks.
    pub open spec fn valid(&self) -> bool {
        email_ok(self.email@)
    }

    /// The failed checks, in field order, as (field, kind).
    pub open spec fn failures(&self) -> Seq<(Seq<char>, Seq<char>)> {
        failure_if(email_ok(self.email@), "email"@, "email"@)
    }

    /// Runs every check; fails with all the failed ones.
    pub fn validate(&self) -> (r: Result<(), Vec<ValidationError>>)
        ensures
            r is Ok <==> self.valid(),
            r matches Err(v) ==> failure_views(v@) == self.failures(),
    {
        let mut errs: Vec<ValidationError> = Vec::new();
        note(&mut errs, is_valid_email(self.email.as_str()), "email", "email");
        outcome(errs)
    }
}

impl InviteInput {
    /// Whether the body passes its checks.
    pub open spec fn valid(&self) -> bool {
        email_ok(self.email@)
    }

    /// The failed checks, in field order, as (field, kind).
    pub open spec fn failures(&self) -> Seq<(Seq<char>, Seq<char>)> {
        failure_if(email_ok(self.email@), "email"@, "email"@)
    }

    /// Runs every check; fails with all the failed ones.
    pub fn validate(&self) -> (r: Result<(), Vec<ValidationError>>)
        ensures
            r is Ok <==> self.valid(),
            r matches Err(v) ==> failure_views(v@) == self.failures(),
    {
        let mut errs: Vec<ValidationError> = Vec::new();
        note(&mut errs, is_valid_email(self.email.as_str()), "email", "email");
        outcome(errs)
    }
}

/// The role a new member gets when the request names none.
pub fn default_member_role() -> (r: String)
    ensures
        r@ == "member"@,
{
    String::from_str("member")
}

/// The roles of a membership.
pub open spec fn is_role(r: Seq<char>) -> bool {
    r == "owner"@ || r == "admin"@ || r == "member"@
}

/// Owners and admins manage the members and invites of their organization.
pub open spec fn manages(role: Seq<char>) -> bool {
    role == "owner"@ || role == "admin"@
}

/// Whether `role` is `owner` or `admin`.
pub fn is_manager(role: &str) -> (r: bool)
    ensures
        r == manages(role@),
{
    same_text(role, "owner") || same_text(role, "admin")
}

/// The role asked for a new member or invite: one of `owner`, `admin`,
/// `member`, else 400.
pub fn check_role(role: String) -> (r: Result<String, AppError>)
    ensures
        is_role(role@) ==> r == Ok::<String, AppError>(role),
        !is_role(role@) ==> bad_request(r, "role must be owner|admin|member"@),
{
    if same_text(role.as_str(), "owner") || same_text(role.as_str(), "admin") || same_text(
        role.as_str(),
        "member",
    ) {
        Ok(role)
    } else {
        Err(AppError::BadRequest(lit("role must be owner|admin|member")))
    }
}

/// Adding a member or inviting: the caller must manage the organization
/// (else 401), and the role must be valid (else 400).
pub fn authorize_grant(caller_role: &str, role: String) -> (r: Result<String, AppError>)
    ensures
        !manages(caller_role@) ==> r == Err::<String, AppError>(AppError::Unauthorized),
        manages(caller_role@) && is_role(role@) ==> r == Ok::<String, AppError>(role),
        manages(caller_role@) && !is_role(role@) ==> bad_request(r, "role must be owner|admin|member"@),
{
    if !is_manager(caller_role) {
        return Err(AppError::Unauthorized);
    }
    check_role(role)
}

/// Who may remove a member: anyone may leave; owners and admins may remove
/// anyone.
pub open spec fn may_remove(caller: u128, caller_role: Seq<char>, target: u128) -> bool {
    target == caller || manages(caller_role)
}

/// `DELETE /orgs/{id}/members/{user_id}`: 401 unless allowed.
pub fn check_remove(caller: u128, caller_role: &str, target: u128) -> (r: Result<(), AppError>)
    ensures
        r is Ok <==> may_remove(caller, caller_role@, target),
        r is Err ==> r == Err::<(), AppError>(AppError::Unauthorized),
{
    if target != caller && !is_manager(caller_role) {
        return Err(AppError::Unauthorized);
    }
    Ok(())
}

/// Adding a member who already belongs is a conflict.
pub fn check_not_member(already: bool) -> (r: Result<(), AppError>)
    ensures
        already ==> conflict(r, "already a member"@),
        !already ==> r is Ok,
{
    if already {
        Err(AppError::Conflict(lit("already a member")))
    } else {
        Ok(())
    }
}

/// Creating an organization whose slug is taken is a conflict.
pub fn check_slug_free(taken: bool) -> (r: Result<(), AppError>)
    ensures
        taken ==> conflict(r, "slug already taken"@),
        !taken ==> r is Ok,
{
    if taken {
        Err(AppError::Conflict(lit("slug already taken")))
    } else {
        Ok(())
    }
}

/// The role of the membership made with a new organization.
pub fn founder_role() -> (r: String)
    ensures
        r@ == "owner"@,
{
    lit("owner")
}

/// The e-mail of `id` in the (id, e-mail) pairs, the last pair winning; empty
/// when there is none.
pub open spec fn email_for(users: Seq<(u128, String)>, id: u128) -> Seq<char>
    decreases users.len(),
{
    if users.len() == 0 {
        Seq::empty()
    } else if users.last().0 == id {
        users.last().1@
    } else {
        email_for(users.drop_last(), id)
    }
}

/// Looks up the e-mail of `id`, as a map built from the pairs would.
pub fn lookup_email(users: &Vec<(u128, String)>, id: u128) -> (r: String)
    ensures
        r@ == email_for(users@, id),
{
    let mut k = users.len();
    assert(users@.subrange(0, k as int) == users@);
    while k > 0
        invariant
            k <= users@.len(),
            email_for(users@.subrange(0, k as int), id) == email_for(users@, id),
        decreases k,
    {
        assert(users@.subrange(0, k as int).drop_last() == users@.subrange(0, k - 1));
        if users[k - 1].0 == id {
            return users[k - 1].1.clone();
        }
        k = k - 1;
    }
    assert(users@.subrange(0, 0) == Seq::<(u128, String)>::empty());
    String::new()
}

/// The member list: each membership with its user's e-mail.
pub fn member_dtos(members: Vec<MembershipRecord>, users: &Vec<(u128, String)>) -> (r: Vec<MemberDto>)
    ensures
        r@.len() == members@.len(),
        forall|i: int| 0 <= i < r@.len() ==> {
            &&& (#[trigger] r@[i]).user_id == members@[i].user_id
            &&& r@[i].email@ == email_for(users@, members@[i].user_id)
            &&& r@[i].role == members@[i].role
            &&& r@[i].created_at == members@[i].created_at
        },
{
    let ghost orig = members@;
    let mut members = members;
    let mut out: Vec<MemberDto> = Vec::new();
    let n = members.len();
    let mut i: usize = 0;
    while i < n
        invariant
            n == orig.len(),
            i <= n,
            members@ == orig.subrange(i as int, n as int),
            out@.len() == i,
            forall|j: int| 0 <= j < i ==> {
                &&& (#[trigger] out@[j]).user_id == orig[j].user_id
                &&& out@[j].email@ == email_for(users@, orig[j].user_id)
                &&& out@[j].role == orig[j].role
                &&& out@[j].created_at == orig[j].created_at
            },
        decreases n - i,
    {
        let m = members.remove(0);
        assert(m == orig[i as int]);
        assert(members@ == orig.subrange(i + 1, n as int));
        let email = lookup_email(users, m.user_id);
        out.push(MemberDto { user_id: m.user_id, email, role: m.role, created_at: m.created_at });
        i = i + 1;
    }
    out
}

/// How long an invite is valid: 14 days, in microseconds.
pub const INVITE_TTL_MICROS: i64 = 1_209_600_000_000;

/// When an invite made at `now` expires.
pub fn invite_expires_at(now: i64) -> (r: i64)
    requires
        now <= i64::MAX - INVITE_TTL_MICROS,
    ensures
        r == now + INVITE_TTL_MICROS,
{
    now + INVITE_TTL_MICROS
}

/// The link of an invite: `{base without trailing /}/invite?token={raw}`.
pub fn invite_url(base: &str, raw: &str) -> (r: String)
    ensures
        r@ == trim_trailing_slashes(base@) + "/invite?token="@ + raw@,
{
    let b = trim_end_slashes(&chars_of(base));
    let mut out = string_of(&b);
    out.append("/invite?token=");
    out.append(raw);
    out
}

/// The answer to `POST /orgs/{id}/invites`.
pub struct InviteCreated {
    pub id: u128,
    pub url: String,
}

/// What an invite link shows before it is accepted.
pub struct InvitePreview {
    pub org: OrgDto,
    pub email: String,
    pub role: String,
    pub expires_at: i64,
}

/// A pending invite past its expiry is refused.
pub fn check_invite_fresh(expires_at: i64, now: i64) -> (r: Result<(), AppError>)
    ensures
        expires_at < now ==> bad_request(r, "invite expired"@),
        expires_at >= now ==> r is Ok,
{
    if expires_at < now {
        Err(AppError::BadRequest(lit("invite expired")))
    } else {
        Ok(())
    }
}

/// Accepting an invite: the account's address, lower-cased, must be the
/// invited one (stored lower-cased).
pub fn check_invite_email(user_email: &str, invite_email: &str) -> (r: Result<(), AppError>)
    ensures
        lowercase(user_email@) == invite_email@ ==> r is Ok,
        lowercase(user_email@) != invite_email@ ==> bad_request(r, "invite email mismatch"@),
{
    let low = to_lowercase(user_email);
    if !same_text(low.as_str(), invite_email) {
        return Err(AppError::BadRequest(lit("invite email mismatch")));
    }
    Ok(())
}

/// Counts of an organization's live files and members.
pub struct OrgStatsDto {
    pub members: u64,
    pub files: u64,
    pub total_bytes: i64,
}

/// Accepting a pending invite found by its token, in the order checked: an
/// expired invite (400), a missing account (401), an account whose address,
/// lower-cased, is not the invited one (400), an account already a member
/// (409).
pub fn check_accept(
    expires_at: i64,
    now: i64,
    user_email: Option<&str>,
    invite_email: &str,
    already_member: bool,
) -> (r: Result<(), AppError>)
    ensures
        expires_at < now ==> bad_request(r, "invite expired"@),
        expires_at >= now && user_email is None ==> r == Err::<(), AppError>(AppError::Unauthorized),
        expires_at >= now && user_email is Some ==> {
            if lowercase(user_email->0@) != invite_email@ {
                bad_request(r, "invite email mismatch"@)
            } else if already_member {
                conflict(r, "already a member"@)
            } else {
                r is Ok
            }
        },
{
    check_invite_fresh(expires_at, now)?;
    let e = match user_email {
        None => return Err(AppError::Unauthorized),
        Some(e) => e,
    };
    check_invite_email(e, invite_email)?;
    check_not_member(already_member)
}

/// The membership an accepted invite creates: the invited role.
pub fn membership_from_invite(id: u128, org_id: u128, user_id: u128, role: String, now: i64) -> (r: MembershipRecord)
    ensures
        r == (MembershipRecord { id, org_id, user_id, role, created_at: now }),
{
    MembershipRecord { id, org_id, user_id, role, created_at: now }
}

/// The statistics of an organization: its members, and its live files and
/// their total size.
pub fn org_stats(members: u64, live_sizes: &Vec<i64>) -> (r: OrgStatsDto)
    requires
        crate::files::sums_fit(live_sizes@),
        live_sizes@.len() <= u64::MAX,
    ensures
        r.members == members,
        r.files == live_sizes@.len(),
        r.total_bytes == crate::files::sum_i64(live_sizes@),
{
    OrgStatsDto { members, files: live_sizes.len() as u64, total_bytes: crate::files::used_bytes(live_sizes) }
}

/// Who may remove a member, in plain terms: anyone may remove themself, an
/// `owner` or an `admin` may remove anyone, and a caller with any other role
/// may remove nobody else.
pub proof fn lemma_who_may_remove(caller: u128, caller_role: Seq<char>, target: u128)
    ensures
        target == caller ==> may_remove(caller, caller_role, target),
        (caller_role == "owner"@ || caller_role == "admin"@) ==> may_remove(caller, caller_role, target),
        (target != caller && caller_role != "owner"@ && caller_role != "admin"@) ==> !may_remove(
            caller,
            caller_role,
            target,
        ),
{
}

/// Who may grant a role: an `owner` or `admin` may grant `owner`, `admin` or
/// `member`, any other role asked for is refused, and a caller with another
/// role may grant nothing.
pub proof fn lemma_who_may_grant(caller_role: Seq<char>, role: Seq<char>)
    ensures
        (caller_role == "owner"@ || caller_role == "admin"@) <==> manages(caller_role),
        (role == "owner"@ || role == "admin"@ || role == "member"@) <==> is_role(role),
{
}

/// Slugs: 2 to 40 characters, lower-case letters, digits and `-`, not
/// starting with `-`; an upper-case letter or any other character anywhere
/// spoils it.
pub proof fn lemma_slug_rule(s: Seq<char>, i: int)
    ensures
        (s.len() < 2 || s.len() > 40) ==> !slug_shape(s),
        s.len() > 0 && s[0] == '-' ==> !slug_shape(s),
        0 <= i < s.len() && 'A' <= s[i] <= 'Z' ==> !slug_shape(s),
        0 <= i < s.len() && !('a' <= s[i] <= 'z') && !('0' <= s[i] <= '9') && s[i] != '-' ==> !slug_shape(s),
        (2 <= s.len() <= 40 && forall|j: int| 0 <= j < s.len() ==> 'a' <= #[trigger] s[j] <= 'z') ==> slug_shape(s),
{
    if 0 <= i < s.len() && i > 0 && slug_shape(s) {
        assert(slug_tail(s[i]));
    }
    if (2 <= s.len() <= 40 && forall|j: int| 0 <= j < s.len() ==> 'a' <= #[trigger] s[j] <= 'z') {
        assert(slug_head(s[0]));
        assert forall|j: int| 1 <= j < s.len() implies slug_tail(#[trigger] s[j]) by {
            assert('a' <= s[j] <= 'z');
        }
    }
}

/// The e-mail shown for a member: that of the last pair with its id, and
/// the empty text when no pair has it.
pub proof fn lemma_email_for_last_pair(users: Seq<(u128, String)>, id: u128, k: int)
    ensures
        (0 <= k < users.len() && users[k].0 == id && forall|j: int| k < j < users.len() ==> users[j].0 != id) ==> email_for(users, id)
            == users[k].1@,
        (forall|j: int| 0 <= j < users.len() ==> users[j].0 != id) ==> email_for(users, id) == Seq::<char>::empty(),
    decreases users.len(),
{
    if users.len() > 0 {
        let w = users.drop_last();
        lemma_email_for_last_pair(w, id, k);
        if 0 <= k < users.len() && users[k].0 == id && forall|j: int| k < j < users.len() ==> users[j].0 != id {
            if k < users.len() - 1 {
                assert(users.last().0 != id);
                assert(w[k] == users[k]);
                assert forall|j: int| k < j < w.len() implies w[j].0 != id by {
                    assert(w[j] == users[j]);
                }
            }
        }
        if forall|j: int| 0 <= j < users.len() ==> users[j].0 != id {
            assert(users.last().0 != id);
            assert forall|j: int| 0 <= j < w.len() implies w[j].0 != id by {
                assert(w[j] == users[j]);
            }
        }
    }
}

} // verus!
