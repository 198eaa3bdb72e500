//! The periodic sweep: which one-time tokens, trashed files, audit events and
//! webhook deliveries are old enough to delete.
use vstd::prelude::*;

verus! {

/// Microseconds in one day.
pub const DAY_MICROS: i64 = 86_400_000_000;

/// Days a file stays in the trash before it is purged.
pub const TRASH_DAYS: i64 = 30;

/// Days audit events are kept.
pub const AUDIT_DAYS: i64 = 90;

/// Days webhook deliveries are kept.
pub const DELIVERY_DAYS: i64 = 30;

/// The instants before which the sweep at `now` deletes: trashed files,
/// audit events and webhook deliveries.
pub struct SweepCutoffs {
    pub trash_before: i64,
    pub audit_before: i64,
    pub deliveries_before: i64,
}

/// The cutoffs of a sweep at `now`.
pub fn sweep_cutoffs(now: i64) -> (r: SweepCutoffs)
    requires
        now >= i64::MIN + AUDIT_DAYS * DAY_MICROS,
    ensures
        r.trash_before == now - TRASH_DAYS * DAY_MICROS,
        r.audit_before == now - AUDIT_DAYS * DAY_MICROS,
        r.deliveries_before == now - DELIVERY_DAYS * DAY_MICROS,
{
    SweepCutoffs {
        trash_before: now - TRASH_DAYS * DAY_MICROS,
        audit_before: now - AUDIT_DAYS * DAY_MICROS,
        deliveries_before: now - DELIVERY_DAYS * DAY_MICROS,
    }
}

/// A password reset or e-mail verification token is deleted once it has
/// expired or has been used.
pub open spec fn stale(expires_at: i64, used_at: Option<i64>, now: i64) -> bool {
    expires_at < now || used_at is Some
}

/// A trashed file is purged once it was deleted before the cutoff.
pub open spec fn due(deleted_at: Option<i64>, cutoff: i64) -> bool {
    deleted_at matches Some(t) && t < cutoff
}

/// Whether the sweep at `now` deletes the token (see `stale`).
pub fn token_is_stale(expires_at: i64, used_at: Option<i64>, now: i64) -> (r: bool)
    ensures
        r == stale(expires_at, used_at, now),
{
    expires_at < now || used_at.is_some()
}

/// Whether a file is purged (see `due`); a file that is not in the trash
/// never is.
pub fn purge_due(deleted_at: Option<i64>, cutoff: i64) -> (r: bool)
    ensures
        r == due(deleted_at, cutoff),
{
    match deleted_at {
        Some(t) => t < cutoff,
        None => false,
    }
}

/// A row stamped `at` is deleted once it is older than the cutoff.
pub fn older_than(at: i64, cutoff: i64) -> (r: bool)
    ensures
        r == (at < cutoff),
{
    at < cutoff
}

/// A usable token is never swept: one that is unused and not yet expired
/// survives every sweep until it expires.
pub proof fn lemma_live_token_survives(expires_at: i64, now: i64)
    requires
        now <= expires_at,
    ensures
        !stale(expires_at, None, now),
{
}

/// A file trashed at `t` is purged by the sweep at `now` exactly when more
/// than 30 days have passed; a file out of the trash never is.
pub proof fn lemma_purge_after_thirty_days(t: i64, now: i64)
    requires
        now >= i64::MIN + AUDIT_DAYS * DAY_MICROS,
    ensures
        due(Some(t), (now - TRASH_DAYS * DAY_MICROS) as i64) <==> t + TRASH_DAYS * DAY_MICROS < now,
        !due(None, (now - TRASH_DAYS * DAY_MICROS) as i64),
{
}

/// The sweep deletes a token once it is used or past its expiry, and keeps
/// trashed files for 30 days of 86,400 seconds, audit events for 90 days
/// and webhook deliveries for 30 days.
pub proof fn lemma_sweep_rules(expires_at: i64, used_at: Option<i64>, now: i64)
    ensures
        used_at is Some ==> stale(expires_at, used_at, now),
        expires_at < now ==> stale(expires_at, used_at, now),
        used_at is None && expires_at >= now ==> !stale(expires_at, used_at, now),
        TRASH_DAYS * DAY_MICROS == 30 * 86_400 * 1_000_000,
        AUDIT_DAYS * DAY_MICROS == 90 * 86_400 * 1_000_000,
        DELIVERY_DAYS * DAY_MICROS == 30 * 86_400 * 1_000_000,
{
}

} // verus!
