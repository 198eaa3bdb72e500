//! Administration: the admin check, the user search, roles, locking and
//! unlocking accounts, the audit filters and the audit CSV export.
use vstd::prelude::*;

use crate::audit::AuditDto;
use crate::auth::{locked_at, UserRecord};
use crate::error::{bad_request, lit, AppError};
use crate::formats::{compact_pattern, format_utc, in_chrono_range, rfc3339, rfc3339_auto, utc_formatted};
use crate::ids::{uuid_text, uuid_to_string};
use crate::text::{chars_of, contains_char, contains_seq, has_infix, push_char, same_text};
use crate::validation::{lowercase, to_lowercase};

verus! {

/// Counts over the whole service.
pub struct AdminStats {
    pub users: u64,
    pub files: u64,
    pub total_bytes: i64,
}

/// An account as listed to admins.
pub struct UserSummary {
    pub id: u128,
    pub email: String,
    pub role: String,
    pub created_at: i64,
}

/// `GET /admin/users?q=`.
pub struct UserSearchQuery {
    pub q: Option<String>,
}

/// `GET /admin/audit?action=&user_id=`.
pub struct AdminAuditQuery {
    pub action: Option<String>,
    pub user_id: Option<u128>,
}

/// `POST /admin/users/{id}/role`.
pub struct SetRoleInput {
    pub role: String,
}

/// Only accounts with the role `admin` reach the admin endpoints.
pub fn require_admin(role: &str) -> (r: Result<(), AppError>)
    ensures
        r is Ok <==> role@ == "admin"@,
        r is Err ==> r == Err::<(), AppError>(AppError::Unauthorized),
{
    if same_text(role, "admin") {
        Ok(())
    } else {
        Err(AppError::Unauthorized)
    }
}

/// The roles an admin may set.
pub fn check_account_role(role: &str) -> (r: Result<(), AppError>)
    ensures
        (role@ == "admin"@ || role@ == "user"@) ==> r is Ok,
        !(role@ == "admin"@ || role@ == "user"@) ==> bad_request(r, "role must be admin|user"@),
{
    if same_text(role, "admin") || same_text(role, "user") {
        Ok(())
    } else {
        Err(AppError::BadRequest(lit("role must be admin|user")))
    }
}

/// A search text applies when given and not empty.
pub open spec fn search_text(q: Option<Seq<char>>) -> Option<Seq<char>> {
    match q {
        Some(s) => if s.len() == 0 {
            None
        } else {
            Some(s)
        },
        None => None,
    }
}

/// The view of an optional string.
pub open spec fn opt_string(o: Option<String>) -> Option<Seq<char>> {
    match o {
        Some(s) => Some(s@),
        None => None,
    }
}

/// The accounts whose lower-cased address holds the lower-cased search text;
/// all of them when there is none.
pub open spec fn matching_users(rows: Seq<UserSummary>, q: Option<Seq<char>>) -> Seq<UserSummary> {
    match search_text(q) {
        None => rows,
        Some(s) => rows.filter(|u: UserSummary| has_infix(lowercase(u.email@), lowercase(s))),
    }
}

/// `GET /admin/users`: filters the listed accounts by the search text.
pub fn search_users(rows: Vec<UserSummary>, q: Option<String>) -> (r: Vec<UserSummary>)
    ensures
        r@ == matching_users(rows@, opt_string(q)),
{
    let needle = match q {
        None => return rows,
        Some(s) => s,
    };
    if needle.unicode_len() == 0 {
        return rows;
    }
    let n_low = to_lowercase(needle.as_str());
    let n_chars = chars_of(n_low.as_str());
    let ghost orig = rows@;
    let ghost sv = needle@;
    let mut rows = rows;
    let mut out: Vec<UserSummary> = Vec::new();
    let n = rows.len();
    let mut i: usize = 0;
    while i < n
        invariant
            n == orig.len(),
            i <= n,
            n_chars@ == lowercase(sv),
            rows@ == orig.subrange(i as int, n as int),
            out@ == orig.subrange(0, i as int).filter(
                |u: UserSummary| has_infix(lowercase(u.email@), lowercase(sv)),
            ),
        decreases n - i,
    {
        let u = rows.remove(0);
        assert(orig.subrange(0, i + 1).drop_last() == orig.subrange(0, i as int));
        assert(orig.subrange(0, i + 1).last() == u);
        assert(rows@ == orig.subrange(i + 1, n as int));
        proof {
            reveal_with_fuel(Seq::<_>::filter, 1);
        }
        let low = to_lowercase(u.email.as_str());
        let low_chars = chars_of(low.as_str());
        if contains_seq(&low_chars, &n_chars) {
            out.push(u);
        }
        i = i + 1;
    }
    assert(orig.subrange(0, n as int) == orig);
    out
}

/// The action filter of the audit list: applies when given and not empty.
pub fn action_filter(action: Option<String>) -> (r: Option<String>)
    ensures
        opt_string(r) == search_text(opt_string(action)),
{
    match action {
        Some(a) => if a.unicode_len() == 0 {
            None
        } else {
            Some(a)
        },
        None => None,
    }
}

/// How long an admin lock lasts: 3650 days, in microseconds.
pub const ADMIN_LOCK_MICROS: i64 = 315_360_000_000_000;

/// The account after an admin lock at `now`: locked for ten years and every
/// session ended.
pub open spec fn admin_locked(u: UserRecord, now: i64) -> UserRecord {
    UserRecord {
        locked_until: Some((now + ADMIN_LOCK_MICROS) as i64),
        session_version: (u.session_version + 1) as i32,
        ..u
    }
}

/// Locks an account (`POST /admin/users/{id}/lock`).
pub fn lock_account(u: UserRecord, now: i64) -> (r: UserRecord)
    requires
        now <= i64::MAX - ADMIN_LOCK_MICROS,
        u.session_version < i32::MAX,
    ensures
        r == admin_locked(u, now),
{
    let v = u.session_version + 1;
    UserRecord { locked_until: Some(now + ADMIN_LOCK_MICROS), session_version: v, ..u }
}

/// The account after an admin unlock: no lock and no failed attempts.
pub open spec fn admin_unlocked(u: UserRecord) -> UserRecord {
    UserRecord { locked_until: None, failed_login_count: 0, ..u }
}

/// Unlocks an account (`POST /admin/users/{id}/unlock`).
pub fn unlock_account(u: UserRecord) -> (r: UserRecord)
    ensures
        r == admin_unlocked(u),
{
    UserRecord { locked_until: None, failed_login_count: 0, ..u }
}

/// A locked account stays locked for the whole lock: no login is let
/// through at any time before it ends.
pub proof fn lemma_admin_lock_holds(u: UserRecord, now: i64, later: i64)
    requires
        now <= i64::MAX - ADMIN_LOCK_MICROS,
        u.session_version < i32::MAX,
        now <= later < now + ADMIN_LOCK_MICROS,
    ensures
        locked_at(admin_locked(u, now).locked_until, later),
        admin_locked(u, now).session_version != u.session_version,
{
}

/// Unlocking undoes a lock: the account is open at any time, with a fresh
/// failure count, whatever was locked before.
pub proof fn lemma_unlock_opens(u: UserRecord, now: i64, at: i64)
    requires
        now <= i64::MAX - ADMIN_LOCK_MICROS,
        u.session_version < i32::MAX,
    ensures
        !locked_at(admin_unlocked(admin_locked(u, now)).locked_until, at),
        admin_unlocked(admin_locked(u, now)).failed_login_count == 0,
{
}

/// The detail of an account shown to admins.
pub struct UserDetail {
    pub id: u128,
    pub email: String,
    pub role: String,
    pub display_name: Option<String>,
    pub email_verified: bool,
    pub totp_enabled: bool,
    pub locked: bool,
    pub failed_login_count: i32,
    pub created_at: i64,
    pub updated_at: i64,
    pub orgs: Vec<u128>,
    pub files_count: u64,
}

/// The detail of an account at `now`: locked while its lock lasts, verified
/// once its address was confirmed.
pub fn user_detail(
    u: &UserRecord,
    display_name: Option<String>,
    created_at: i64,
    updated_at: i64,
    orgs: Vec<u128>,
    files_count: u64,
    now: i64,
) -> (r: UserDetail)
    ensures
        r.id == u.id,
        r.email == u.email,
        r.role == u.role,
        r.display_name == display_name,
        r.email_verified == u.email_verified_at is Some,
        r.totp_enabled == u.totp_enabled,
        r.locked == locked_at(u.locked_until, now),
        r.failed_login_count == u.failed_login_count,
        r.created_at == created_at,
        r.updated_at == updated_at,
        r.orgs == orgs,
        r.files_count == files_count,
{
    UserDetail {
        id: u.id,
        email: u.email.clone(),
        role: u.role.clone(),
        display_name,
        email_verified: u.email_verified_at.is_some(),
        totp_enabled: u.totp_enabled,
        locked: crate::auth::is_locked(u.locked_until, now),
        failed_login_count: u.failed_login_count,
        created_at,
        updated_at,
        orgs,
        files_count,
    }
}

/// Where a database backup taken at `now` is stored:
/// `backups/{YYYYMMDDTHHMMSSZ}.sql.gz`; `None` where the time has no such
/// form.
pub fn backup_key(now: i64) -> (r: Option<String>)
    ensures
        match r {
            Some(k) => utc_formatted(now, compact_pattern()) matches Some(ts) && k@ == "backups/"@ + ts
                + ".sql.gz"@,
            None => utc_formatted(now, compact_pattern()) is None,
        },
        in_chrono_range(now) ==> r is Some,
{
    proof {
        reveal_strlit("%Y%m%dT%H%M%SZ");
    }
    let ts = match format_utc(now, "%Y%m%dT%H%M%SZ") {
        Some(t) => t,
        None => return None,
    };
    let mut k = lit("backups/");
    k.append(ts.as_str());
    k.append(".sql.gz");
    Some(k)
}

/// The shell pipeline of a backup: a plain-format `pg_dump` of the database,
/// compressed by `gzip -9`.
pub fn backup_command(database_url: &str) -> (r: String)
    ensures
        r@ == "pg_dump --no-owner --no-privileges --format=plain '"@ + database_url@ + "' | gzip -9"@,
{
    let mut c = lit("pg_dump --no-owner --no-privileges --format=plain '");
    c.append(database_url);
    c.append("' | gzip -9");
    c
}

/// The header of the audit CSV export.
pub open spec fn csv_header() -> Seq<char> {
    "id,user_id,action,ip,user_agent,created_at\n"@
}

/// `s` with every `"` doubled.
pub open spec fn double_quotes(s: Seq<char>) -> Seq<char>
    decreases s.len(),
{
    if s.len() == 0 {
        Seq::empty()
    } else {
        double_quotes(s.drop_last()) + if s.last() == '"' {
            seq!['"', '"']
        } else {
            seq![s.last()]
        }
    }
}

/// A CSV field: quoted, with `"` doubled, when it holds a comma, a quote or a
/// line feed; else as it is.
pub open spec fn csv_field(s: Seq<char>) -> Seq<char> {
    if s.contains(',') || s.contains('"') || s.contains('\n') {
        seq!['"'] + double_quotes(s) + seq!['"']
    } else {
        s
    }
}

/// Escapes one CSV field (see `csv_field`).
pub fn csv_escape(s: &str) -> (r: String)
    ensures
        r@ == csv_field(s@),
{
    let cs = chars_of(s);
    if !(contains_char(&cs, ',') || contains_char(&cs, '"') || contains_char(&cs, '\n')) {
        return s.to_owned();
    }
    let mut out = String::new();
    push_char(&mut out, '"');
    let n = cs.len();
    for i in 0..n
        invariant
            n == cs@.len(),
            cs@ == s@,
            out@ == seq!['"'] + double_quotes(s@.subrange(0, i as int)),
    {
        assert(s@.subrange(0, i + 1).drop_last() == s@.subrange(0, i as int));
        if cs[i] == '"' {
            push_char(&mut out, '"');
            push_char(&mut out, '"');
        } else {
            push_char(&mut out, cs[i]);
        }
    }
    assert(s@.subrange(0, n as int) == s@);
    push_char(&mut out, '"');
    out
}

/// The text of an optional value, empty when absent.
pub open spec fn or_empty(o: Option<Seq<char>>) -> Seq<char> {
    match o {
        Some(s) => s,
        None => Seq::empty(),
    }
}

/// One line of the audit CSV export; `None` where the time has no RFC 3339
/// form.
pub open spec fn csv_line(e: AuditDto) -> Option<Seq<char>> {
    match rfc3339_auto(e.created_at) {
        None => None,
        Some(ts) => Some(
            uuid_text(e.id) + seq![','] + (match e.user_id {
                Some(u) => uuid_text(u),
                None => Seq::empty(),
            }) + seq![','] + csv_field(e.action@) + seq![','] + csv_field(or_empty(opt_string(e.ip)))
                + seq![','] + csv_field(or_empty(opt_string(e.user_agent))) + seq![','] + ts + seq!['\n'],
        ),
    }
}

/// The lines of the export after the header, `None` when some time has no
/// RFC 3339 form.
pub open spec fn csv_body(rows: Seq<AuditDto>) -> Option<Seq<char>>
    decreases rows.len(),
{
    if rows.len() == 0 {
        Some(Seq::empty())
    } else {
        match (csv_body(rows.drop_last()), csv_line(rows.last())) {
            (Some(b), Some(l)) => Some(b + l),
            _ => None,
        }
    }
}

/// Appends the escaped text of an optional string, an empty field when
/// absent.
fn push_opt(out: &mut String, o: &Option<String>)
    ensures
        final(out)@ == old(out)@ + csv_field(or_empty(opt_string(*o))),
{
    proof {
        reveal_strlit("");
    }
    let t: &str = match o {
        Some(s) => s.as_str(),
        None => "",
    };
    assert(t@ == or_empty(opt_string(*o)));
    let e = csv_escape(t);
    out.append(e.as_str());
}

/// One line of the export (see `csv_line`).
fn csv_line_of(e: &AuditDto) -> (r: Option<String>)
    ensures
        match r {
            Some(l) => csv_line(*e) == Some(l@),
            None => csv_line(*e) is None,
        },
        in_chrono_range(e.created_at) ==> r is Some,
{
    let ts = match rfc3339(e.created_at) {
        Some(t) => t,
        None => return None,
    };
    let mut out = uuid_to_string(e.id);
    push_char(&mut out, ',');
    match e.user_id {
        Some(u) => {
            out.append(uuid_to_string(u).as_str());
        },
        None => {},
    }
    push_char(&mut out, ',');
    out.append(csv_escape(e.action.as_str()).as_str());
    push_char(&mut out, ',');
    push_opt(&mut out, &e.ip);
    push_char(&mut out, ',');
    push_opt(&mut out, &e.user_agent);
    push_char(&mut out, ',');
    out.append(ts.as_str());
    push_char(&mut out, '\n');
    Some(out)
}

/// `GET /admin/audit.csv`: the header and one line per event, in the order
/// given; `None` only when a time is outside chrono's range.
pub fn audit_csv(rows: &Vec<AuditDto>) -> (r: Option<String>)
    ensures
        match r {
            Some(s) => s@.len() >= csv_header().len()
                && s@.subrange(0, csv_header().len() as int) == csv_header()
                && csv_body(rows@) == Some(s@.subrange(csv_header().len() as int, s@.len() as int)),
            None => csv_body(rows@) is None,
        },
        (forall|i: int| 0 <= i < rows@.len() ==> in_chrono_range(#[trigger] rows@[i].created_at)) ==> r is Some,
{
    let mut out = lit("id,user_id,action,ip,user_agent,created_at\n");
    let ghost hl = csv_header().len() as int;
    let n = rows.len();
    assert(out@.subrange(hl, out@.len() as int) =~= Seq::<char>::empty());
    assert(out@.subrange(0, hl) =~= csv_header());
    for i in 0..n
        invariant
            n == rows@.len(),
            hl == csv_header().len(),
            out@.len() >= hl,
            out@.subrange(0, hl) == csv_header(),
            csv_body(rows@.subrange(0, i as int)) == Some(out@.subrange(hl, out@.len() as int)),
            forall|j: int| 0 <= j < i ==> csv_line(#[trigger] rows@[j]) is Some,
    {
        let e = &rows[i];
        let ghost before = out@;
        assert(rows@.subrange(0, i + 1).drop_last() == rows@.subrange(0, i as int));
        assert(rows@.subrange(0, i + 1).last() == *e);
        let line = match csv_line_of(e) {
            Some(l) => l,
            None => {
                proof {
                    lemma_body_none_extends(rows@, i as int + 1);
                }
                return None;
            },
        };
        out.append(line.as_str());
        assert(out@.subrange(0, hl) == before.subrange(0, hl));
        assert(out@.subrange(hl, out@.len() as int) == before.subrange(hl, before.len() as int) + line@);
    }
    assert(rows@.subrange(0, n as int) == rows@);
    Some(out)
}

/// Once a prefix of the rows has no export, no longer prefix has one.
proof fn lemma_body_none_extends(rows: Seq<AuditDto>, k: int)
    requires
        0 < k <= rows.len(),
        csv_body(rows.subrange(0, k)) is None,
    ensures
        csv_body(rows) is None,
    decreases rows.len() - k,
{
    if k == rows.len() {
        assert(rows.subrange(0, k) == rows);
    } else {
        assert(rows.subrange(0, k + 1).drop_last() == rows.subrange(0, k));
        lemma_body_none_extends(rows, k + 1);
    }
}

/// The admin user search: without a search text (or with an empty one)
/// every account is listed; with one, an account is listed exactly when the
/// lower-cased text stands somewhere in its lower-cased address.
pub proof fn lemma_user_search_rule(rows: Seq<UserSummary>, q: Option<Seq<char>>)
    ensures
        (q is None || q->0.len() == 0) ==> matching_users(rows, q) == rows,
        (q matches Some(s) && s.len() > 0) ==> forall|i: int|
            0 <= i < rows.len() ==> (matching_users(rows, q).contains(#[trigger] rows[i]) <==> crate::files::listing::holds_block(
                lowercase(rows[i].email@),
                lowercase(q->0),
            )),
{
    if q is Some && q->0.len() > 0 {
        let s = q->0;
        let p = |u: UserSummary| has_infix(lowercase(u.email@), lowercase(s));
        crate::files::lemma_filter_exact(rows, p);
        assert forall|i: int| 0 <= i < rows.len() implies (p(rows[i]) <==> crate::files::listing::holds_block(
            lowercase(rows[i].email@),
            lowercase(s),
        )) by {
            let e = lowercase(rows[i].email@);
            let n = lowercase(s);
            if p(rows[i]) {
                let k = choose|k: int| crate::text::occurs_at(e, n, k);
                assert(e.subrange(k, k + n.len()) == n);
            }
            if crate::files::listing::holds_block(e, n) {
                let k = choose|k: int| 0 <= k && k + n.len() <= e.len() && #[trigger] e.subrange(k, k + n.len()) == n;
                assert(crate::text::occurs_at(e, n, k));
            }
        }
    }
}

proof fn lemma_double_quotes_plain(s: Seq<char>)
    requires
        !s.contains('"'),
    ensures
        double_quotes(s) == s,
    decreases s.len(),
{
    if s.len() > 0 {
        assert(!s.drop_last().contains('"')) by {
            if s.drop_last().contains('"') {
                let j = choose|j: int| 0 <= j < s.drop_last().len() && s.drop_last()[j] == '"';
                assert(s[j] == '"');
            }
        }
        lemma_double_quotes_plain(s.drop_last());
        assert(s.last() != '"') by {
            assert(s[s.len() - 1] == s.last());
        }
        assert(s.drop_last().push(s.last()) =~= s);
    }
}

/// CSV fields: one without a comma, quote or line feed is written as it
/// is; any other is wrapped in quotes; a text without quotes is not changed
/// inside them.
pub proof fn lemma_csv_field_rule(s: Seq<char>)
    ensures
        !(s.contains(',') || s.contains('"') || s.contains('\n')) ==> csv_field(s) == s,
        (s.contains(',') || s.contains('"') || s.contains('\n')) ==> csv_field(s)[0] == '"' && csv_field(s).last() == '"'
            && csv_field(s).len() >= 2,
        (s.contains(',') || s.contains('\n')) && !s.contains('"') ==> csv_field(s) == seq!['"'] + s + seq!['"'],
{
    if !s.contains('"') {
        lemma_double_quotes_plain(s);
    }
}

/// An admin lock lasts ten years (3,650 days).
pub proof fn lemma_admin_lock_length()
    ensures
        ADMIN_LOCK_MICROS == 3650 * 86_400 * 1_000_000,
{
}

/// Each line of the audit export starts with the event's id and a comma and
/// ends with its time and a line feed; the export of some events followed by
/// one more is theirs followed by that event's line.
pub proof fn lemma_csv_line_shape(e: AuditDto, rows: Seq<AuditDto>)
    ensures
        rfc3339_auto(e.created_at) is Some ==> (csv_line(e) is Some && csv_line(e)->0.subrange(0, 36) == uuid_text(e.id)
            && csv_line(e)->0[36] == ',' && csv_line(e)->0.last() == '\n'),
        rfc3339_auto(e.created_at) is None ==> csv_line(e) is None,
        (csv_body(rows) is Some && csv_line(e) is Some) ==> csv_body(rows.push(e)) == Some(csv_body(rows)->0 + csv_line(e)->0),
{
    crate::ids::lemma_uuid_text_no_colon(e.id);
    if rfc3339_auto(e.created_at) is Some {
        let l = csv_line(e)->0;
        assert(l.subrange(0, 36) =~= uuid_text(e.id));
    }
    assert(rows.push(e).drop_last() =~= rows);
}

} // verus!
