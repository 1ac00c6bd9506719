//! Login rate limiting of the web panel.
//!
//! Times are nanoseconds on a monotonic clock, as the program reads them.
use vstd::hash_map::StringHashMap;
use vstd::prelude::*;
use vstd::string::StringExecFns;

use crate::auth::{password_accepted, verify_password};
use crate::text::str_eq;

verus! {

/// Failed attempts after which a user is locked out.
pub const MAX_LOGIN_ATTEMPTS: u32 = 5;

/// Length of a lockout, in seconds.
pub const LOGIN_LOCKOUT_SECS: u64 = 300;

/// Nanoseconds per second.
pub const NANOS_PER_SEC: u64 = 1_000_000_000;

/// Failed login attempts of one user.
#[derive(Clone, Copy, Debug, PartialEq, Eq, Structural)]
pub struct LoginAttempt {
    /// Failures counted so far.
    pub count: u32,
    /// When the first counted failure happened; once the failures reach
    /// `MAX_LOGIN_ATTEMPTS`, when the failure that reached the limit happened
    /// (the lockout counts from it).
    pub window_start: u64,
}

/// Whole seconds from `start` to `now` (zero when `now` is earlier).
pub open spec fn elapsed_secs(start: u64, now: u64) -> int {
    if now >= start {
        (now - start) / (NANOS_PER_SEC as int)
    } else {
        0
    }
}

/// What a rate-limit check answers, and the attempts it leaves behind.
pub open spec fn check_outcome(m: Map<Seq<char>, LoginAttempt>, user: Seq<char>, now: u64) -> (
    bool,
    Map<Seq<char>, LoginAttempt>,
) {
    if !m.contains_key(user) {
        (true, m)
    } else {
        let a = m[user];
        if a.count >= MAX_LOGIN_ATTEMPTS && elapsed_secs(a.window_start, now) > LOGIN_LOCKOUT_SECS {
            (true, m.insert(user, LoginAttempt { count: 0, window_start: now }))
        } else if a.count >= MAX_LOGIN_ATTEMPTS {
            (false, m)
        } else {
            (true, m)
        }
    }
}

/// The attempts after a login of `user` succeeded or failed at `now`.
pub open spec fn record_outcome(
    m: Map<Seq<char>, LoginAttempt>,
    user: Seq<char>,
    success: bool,
    now: u64,
) -> Map<Seq<char>, LoginAttempt> {
    if success {
        m.remove(user)
    } else {
        let a = if m.contains_key(user) {
            m[user]
        } else {
            LoginAttempt { count: 0, window_start: now }
        };
        let count = (a.count + 1) as u32;
        m.insert(
            user,
            LoginAttempt {
                count,
                window_start: if count >= MAX_LOGIN_ATTEMPTS {
                    now
                } else {
                    a.window_start
                },
            },
        )
    }
}

/// Login attempts per user name.
pub struct LoginRateLimiter {
    attempts: StringHashMap<LoginAttempt>,
}

impl LoginRateLimiter {
    /// The attempts per user name.
    pub closed spec fn view(&self) -> Map<Seq<char>, LoginAttempt> {
        self.attempts@
    }

    /// No attempts recorded.
    pub fn new() -> (l: Self)
        ensures
            l.view() == Map::<Seq<char>, LoginAttempt>::empty(),
    {
        LoginRateLimiter { attempts: StringHashMap::new() }
    }

    /// Whether `username` may try to log in now. A user with
    /// `MAX_LOGIN_ATTEMPTS` failures is refused until more than
    /// `LOGIN_LOCKOUT_SECS` whole seconds have passed since the failure that
    /// reached the limit; then the count starts over.
    pub fn check_login_rate_limit(&mut self, username: &str, now: u64) -> (allowed: bool)
        ensures
            (allowed, final(self).view()) == check_outcome(old(self).view(), username@, now),
    {
        match self.attempts.get(username) {
            Some(a) => {
                let a = *a;
                let elapsed = if now >= a.window_start {
                    now - a.window_start
                } else {
                    0
                };
                if a.count >= MAX_LOGIN_ATTEMPTS && elapsed / NANOS_PER_SEC > LOGIN_LOCKOUT_SECS {
                    self.attempts.insert(
                        String::from_str(username),
                        LoginAttempt { count: 0, window_start: now },
                    );
                    return true;
                }
                if a.count >= MAX_LOGIN_ATTEMPTS {
                    return false;
                }
                true
            },
            None => true,
        }
    }

    /// Records the result of a login: success forgets the user's failures,
    /// a failure adds one (the first failure opens the window; the failure
    /// that reaches the limit starts the lockout).
    pub fn record_login_attempt(&mut self, username: &str, success: bool, now: u64)
        requires
            old(self).view().contains_key(username@) ==> old(self).view()[username@].count
                < u32::MAX,
        ensures
            final(self).view() == record_outcome(old(self).view(), username@, success, now),
    {
        if success {
            self.attempts.remove(username);
            return;
        }
        let a = match self.attempts.get(username) {
            Some(a) => *a,
            None => LoginAttempt { count: 0, window_start: now },
        };
        let count = a.count + 1;
        let window_start = if count >= MAX_LOGIN_ATTEMPTS {
            now
        } else {
            a.window_start
        };
        self.attempts.insert(String::from_str(username), LoginAttempt { count, window_start });
    }
}

/// How a login request ends.
#[derive(Debug, Clone, Copy, PartialEq, Eq, Structural)]
pub enum LoginOutcome {
    /// Too many recent failures: refused before the password is looked at.
    RateLimited,
    /// Wrong user name or password: one more failure is counted.
    Rejected,
    /// Accepted: the failures are forgotten.
    Accepted,
}

/// What a login attempt does: its outcome and the attempts it leaves.
pub open spec fn login_outcome(
    m: Map<Seq<char>, LoginAttempt>,
    username: Seq<char>,
    credentials_ok: bool,
    now: u64,
) -> (LoginOutcome, Map<Seq<char>, LoginAttempt>) {
    let (allowed, m1) = check_outcome(m, username, now);
    if !allowed {
        (LoginOutcome::RateLimited, m1)
    } else if !credentials_ok {
        (LoginOutcome::Rejected, record_outcome(m1, username, false, now))
    } else {
        (LoginOutcome::Accepted, record_outcome(m1, username, true, now))
    }
}

impl LoginRateLimiter {
    /// Decides a login request: the rate limit first, then the user name and
    /// the password (as `verify_password` checks it), and the attempt is
    /// recorded.
    pub fn login(
        &mut self,
        username: &str,
        password: &str,
        config_user: &str,
        config_password: &str,
        now: u64,
    ) -> (outcome: LoginOutcome)
        ensures
            (outcome, final(self).view()) == login_outcome(
                old(self).view(),
                username@,
                username@ == config_user@ && password_accepted(password@, config_password@),
                now,
            ),
    {
        if !self.check_login_rate_limit(username, now) {
            return LoginOutcome::RateLimited;
        }
        let user_ok = str_eq(username, config_user) && verify_password(password, config_password);
        if !user_ok {
            self.record_login_attempt(username, false, now);
            return LoginOutcome::Rejected;
        }
        self.record_login_attempt(username, true, now);
        LoginOutcome::Accepted
    }
}

/// The attempts after a run of failed logins of `user` at the given times
/// (each refused or rejected as `login_outcome` decides).
pub open spec fn after_failures(
    m: Map<Seq<char>, LoginAttempt>,
    user: Seq<char>,
    times: Seq<u64>,
) -> Map<Seq<char>, LoginAttempt>
    decreases times.len(),
{
    if times.len() == 0 {
        m
    } else {
        after_failures(login_outcome(m, user, false, times[0]).1, user, times.drop_first())
    }
}

/// Failures are counted one by one from the first: after `k` failed logins
/// of a user with no record (`k` up to the limit), the user has `k`
/// failures counted, since the first of them, or, when they reach the
/// limit, since the last.
pub proof fn lemma_failures_counted(m: Map<Seq<char>, LoginAttempt>, user: Seq<char>, times: Seq<u64>)
    requires
        !m.contains_key(user),
        1 <= times.len() <= MAX_LOGIN_ATTEMPTS,
    ensures
        after_failures(m, user, times).contains_key(user),
        after_failures(m, user, times)[user] == (LoginAttempt {
            count: times.len() as u32,
            window_start: if times.len() == MAX_LOGIN_ATTEMPTS {
                times[times.len() - 1]
            } else {
                times[0]
            },
        }),
    decreases times.len(),
{
    let m1 = login_outcome(m, user, false, times[0]).1;
    assert(m1[user] == LoginAttempt { count: 1, window_start: times[0] });
    assert(after_failures(m, user, times) == after_failures(m1, user, times.drop_first()));
    if times.len() > 1 {
        lemma_failures_counted_from(m1, user, times.drop_first(), 1, times[0]);
    } else {
        assert(after_failures(m1, user, times.drop_first()) == m1);
    }
}

/// Counting goes on from a record with `k` failures below the limit.
proof fn lemma_failures_counted_from(
    m: Map<Seq<char>, LoginAttempt>,
    user: Seq<char>,
    times: Seq<u64>,
    k: u32,
    start: u64,
)
    requires
        m.contains_key(user),
        m[user] == (LoginAttempt { count: k, window_start: start }),
        1 <= k,
        k + times.len() <= MAX_LOGIN_ATTEMPTS,
        k < MAX_LOGIN_ATTEMPTS,
    ensures
        after_failures(m, user, times).contains_key(user),
        after_failures(m, user, times)[user] == (LoginAttempt {
            count: (k + times.len()) as u32,
            window_start: if k + times.len() == MAX_LOGIN_ATTEMPTS {
                times[times.len() - 1]
            } else {
                start
            },
        }),
    decreases times.len(),
{
    if times.len() > 0 {
        let m1 = login_outcome(m, user, false, times[0]).1;
        let t = times.drop_first();
        if k + 1 == MAX_LOGIN_ATTEMPTS {
            assert(m1[user] == LoginAttempt { count: (k + 1) as u32, window_start: times[0] });
            assert(t.len() == 0);
            assert(after_failures(m, user, times) == after_failures(m1, user, t));
            assert(after_failures(m1, user, t) == m1);
        } else {
            assert(m1[user] == LoginAttempt { count: (k + 1) as u32, window_start: start });
            assert(after_failures(m, user, times) == after_failures(m1, user, t));
            lemma_failures_counted_from(m1, user, t, (k + 1) as u32, start);
            if t.len() > 0 {
                assert(t[t.len() - 1] == times[times.len() - 1]);
            }
        }
    }
}

/// Five failed logins lock a user out: while no more than
/// `LOGIN_LOCKOUT_SECS` whole seconds have passed since the fifth failure,
/// the next login is refused without looking at the password, and the
/// record stays as it is.
pub proof fn lemma_lockout(
    m: Map<Seq<char>, LoginAttempt>,
    user: Seq<char>,
    times: Seq<u64>,
    credentials_ok: bool,
    now: u64,
)
    requires
        !m.contains_key(user),
        times.len() == MAX_LOGIN_ATTEMPTS,
        elapsed_secs(times[times.len() - 1], now) <= LOGIN_LOCKOUT_SECS,
    ensures
        ({
            let locked = after_failures(m, user, times);
            login_outcome(locked, user, credentials_ok, now) == (LoginOutcome::RateLimited, locked)
        }),
{
    lemma_failures_counted(m, user, times);
}

/// A lockout ends: once more than `LOGIN_LOCKOUT_SECS` whole seconds have
/// passed since the failure that started it, the user may try again, and
/// the count starts over.
pub proof fn lemma_lockout_expires(m: Map<Seq<char>, LoginAttempt>, user: Seq<char>, now: u64)
    requires
        m.contains_key(user),
        m[user].count >= MAX_LOGIN_ATTEMPTS,
        elapsed_secs(m[user].window_start, now) > LOGIN_LOCKOUT_SECS,
    ensures
        check_outcome(m, user, now) == (true, m.insert(
            user,
            LoginAttempt { count: 0, window_start: now },
        )),
{
}

/// A successful login forgets the user's failures: the next attempt, at
/// any time, is allowed.
pub proof fn lemma_success_clears(m: Map<Seq<char>, LoginAttempt>, user: Seq<char>, now: u64, later: u64)
    requires
        login_outcome(m, user, true, now).0 == LoginOutcome::Accepted,
    ensures
        !login_outcome(m, user, true, now).1.contains_key(user),
        check_outcome(login_outcome(m, user, true, now).1, user, later).0,
{
}

} // verus!
