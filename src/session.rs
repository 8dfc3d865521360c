use vstd::prelude::*;

use crate::config::Durations;

verus! {

/// The signed identity of an authenticated client, with its two clocks
/// (seconds since the epoch).
#[derive(Debug, Clone)]
pub struct Session {
    pub user: String,
    pub login_at: u64,
    pub last_visit: u64,
}

/// Whether more than `minutes` (none: no deadline) have passed between
/// `mark` and `now`.
pub open spec fn past_deadline(minutes: Option<u64>, mark: u64, now: u64) -> bool {
    match minutes {
        Some(m) => now - mark > m * 60,
        None => false,
    }
}

/// Whether `s` is no longer valid at `now`: older than the login deadline
/// or idle for longer than the visit deadline.
pub open spec fn expired(s: Session, now: u64, d: Durations) -> bool {
    past_deadline(d.login_minutes, s.login_at, now) || past_deadline(
        d.visit_minutes,
        s.last_visit,
        now,
    )
}

/// A session for `user`, logged in at `now`.
pub fn start(user: String, now: u64) -> (r: Session)
    ensures
        r.user == user,
        r.login_at == now,
        r.last_visit == now,
{
    Session { user, login_at: now, last_visit: now }
}

fn deadline_passed(minutes: Option<u64>, mark: u64, now: u64) -> (r: bool)
    ensures
        r == past_deadline(minutes, mark, now),
{
    match minutes {
        None => false,
        Some(m) => {
            let elapsed: u64 = if now >= mark { now - mark } else { 0 };
            match m.checked_mul(60) {
                Some(limit) => elapsed > limit,
                None => false,
            }
        },
    }
}

/// Whether `s` has expired at `now` under the deadlines `d`.
pub fn is_expired(s: &Session, now: u64, d: &Durations) -> (r: bool)
    ensures
        r == expired(*s, now, *d),
{
    let by_login = deadline_passed(d.login_minutes, s.login_at, now);
    let by_visit = deadline_passed(d.visit_minutes, s.last_visit, now);
    by_login || by_visit
}

/// The session state after an authenticated request at `now`: anonymous if
/// there was no session or it has expired, else the same session with its
/// last visit moved to `now`.
pub fn on_request(state: Option<Session>, now: u64, d: &Durations) -> (r: Option<Session>)
    ensures
        match state {
            None => r is None,
            Some(s) => if expired(s, now, *d) {
                r is None
            } else {
                r == Some(Session { last_visit: now, ..s })
            },
        },
{
    match state {
        None => None,
        Some(s) => {
            if is_expired(&s, now, d) {
                None
            } else {
                Some(Session { user: s.user, login_at: s.login_at, last_visit: now })
            }
        },
    }
}

} // verus!
