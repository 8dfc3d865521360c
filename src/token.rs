use vstd::prelude::*;
use vstd::string::*;

use crate::config::Registration;
use crate::error::DBError;

verus! {

/// A single-use, time-bounded registration token.
#[derive(Debug)]
pub struct InviteToken {
    /// Opaque value: the lowercase hex rendering of random bytes.
    pub value: String,
    /// Admin that issued it; `None` when the system did.
    pub issued_by: Option<String>,
    pub issued_at: u64,
    /// Seconds since the epoch after which the token can no longer be used.
    pub expires_at: u64,
    pub consumed: bool,
    pub consumed_by: Option<String>,
}

/// Why a token could not be consumed or revoked.
#[derive(Debug, Clone, Copy, PartialEq, Eq, Structural)]
pub enum TokenError {
    NotFound,
    Expired,
    AlreadyUsed,
}

/// The lowercase hex digit of `n`, for `n < 16`.
pub open spec fn hex_char(n: u8) -> Seq<char> {
    if n == 0 { "0"@ } else if n == 1 { "1"@ } else if n == 2 { "2"@ } else if n == 3 { "3"@ }
    else if n == 4 { "4"@ } else if n == 5 { "5"@ } else if n == 6 { "6"@ } else if n == 7 { "7"@ }
    else if n == 8 { "8"@ } else if n == 9 { "9"@ } else if n == 10 { "a"@ } else if n == 11 { "b"@ }
    else if n == 12 { "c"@ } else if n == 13 { "d"@ } else if n == 14 { "e"@ } else { "f"@ }
}

/// Two hex digits per byte, high nibble first.
pub open spec fn hex_of(b: Seq<u8>) -> Seq<char>
    decreases b.len(),
{
    if b.len() == 0 {
        Seq::empty()
    } else {
        hex_of(b.drop_last()) + hex_char(b.last() / 16) + hex_char(b.last() % 16)
    }
}

fn hex_digit(n: u8) -> (r: &'static str)
    requires
        n < 16,
    ensures
        r@ == hex_char(n),
{
    if n == 0 { "0" } else if n == 1 { "1" } else if n == 2 { "2" } else if n == 3 { "3" }
    else if n == 4 { "4" } else if n == 5 { "5" } else if n == 6 { "6" } else if n == 7 { "7" }
    else if n == 8 { "8" } else if n == 9 { "9" } else if n == 10 { "a" } else if n == 11 { "b" }
    else if n == 12 { "c" } else if n == 13 { "d" } else if n == 14 { "e" } else { "f" }
}

/// Renders `bytes` as lowercase hex.
pub fn to_hex(bytes: &Vec<u8>) -> (r: String)
    ensures
        r@ == hex_of(bytes@),
{
    let mut s = String::new();
    let mut i: usize = 0;
    while i < bytes.len()
        invariant
            i <= bytes@.len(),
            s@ == hex_of(bytes@.subrange(0, i as int)),
        decreases bytes@.len() - i,
    {
        let b = bytes[i];
        s = s.concat(hex_digit(b / 16)).concat(hex_digit(b % 16));
        proof {
            let next = bytes@.subrange(0, i + 1);
            assert(next.drop_last() =~= bytes@.subrange(0, i as int));
        }
        i = i + 1;
    }
    proof {
        assert(bytes@.subrange(0, bytes@.len() as int) =~= bytes@);
    }
    s
}

/// Relies on rand's thread-local generator (seeded from the operating
/// system): fills a buffer of `n` bytes.
#[verifier::external_body]
fn random_bytes(n: usize) -> (r: Vec<u8>)
    ensures
        r@.len() == n,
{
    let mut v = vec![0u8; n];
    rand::RngCore::fill_bytes(&mut rand::thread_rng(), &mut v);
    v
}

/// Whether some token in `tokens` has the value `v`.
pub open spec fn has_token(tokens: Seq<InviteToken>, v: Seq<char>) -> bool {
    exists|i: int| 0 <= i < tokens.len() && (#[trigger] tokens[i]).value@ == v
}

/// No two tokens share a value.
pub open spec fn unique_values(tokens: Seq<InviteToken>) -> bool {
    forall|i: int, j: int|
        0 <= i < tokens.len() && 0 <= j < tokens.len() && i != j ==> (#[trigger] tokens[i]).value@
            != (#[trigger] tokens[j]).value@
}

/// Whether `t` was issued by the admin `issuer`.
pub open spec fn issued_by(t: InviteToken, issuer: Seq<char>) -> bool {
    t.issued_by matches Some(u) && u@ == issuer
}

/// An unconsumed token has no consumer.
pub open spec fn unclaimed_when_pending(tokens: Seq<InviteToken>) -> bool {
    forall|i: int| 0 <= i < tokens.len() && !(#[trigger] tokens[i]).consumed ==> tokens[i].consumed_by is None
}

/// The position of the token with value `v`; meaningful when `has_token`.
pub open spec fn token_index(tokens: Seq<InviteToken>, v: Seq<char>) -> int {
    choose|i: int| 0 <= i < tokens.len() && (#[trigger] tokens[i]).value@ == v
}

/// A token may be consumed iff it is unconsumed and not yet expired.
pub open spec fn usable(t: InviteToken, now: u64) -> bool {
    !t.consumed && now < t.expires_at
}

/// `t` after `user` consumed it.
pub open spec fn consumed_by(t: InviteToken, user: String) -> InviteToken {
    InviteToken { consumed: true, consumed_by: Some(user), ..t }
}

/// Whether `t` was consumed by `user`.
pub open spec fn held_by(t: InviteToken, user: Seq<char>) -> bool {
    t.consumed_by matches Some(u) && u@ == user
}

/// `t` back in its unconsumed state.
pub open spec fn released(t: InviteToken) -> InviteToken {
    InviteToken { consumed: false, consumed_by: None, ..t }
}

/// What one consumption attempt of `v` by `user` at `now` returns.
pub open spec fn consume_result(tokens: Seq<InviteToken>, v: Seq<char>, now: u64) -> Result<
    (),
    TokenError,
> {
    if !has_token(tokens, v) {
        Err(TokenError::NotFound)
    } else if tokens[token_index(tokens, v)].consumed {
        Err(TokenError::AlreadyUsed)
    } else if now >= tokens[token_index(tokens, v)].expires_at {
        Err(TokenError::Expired)
    } else {
        Ok(())
    }
}

/// The tokens after one consumption attempt of `v` by `user` at `now`.
pub open spec fn consume_state(
    tokens: Seq<InviteToken>,
    v: Seq<char>,
    user: String,
    now: u64,
) -> Seq<InviteToken> {
    if consume_result(tokens, v, now) is Ok {
        let i = token_index(tokens, v);
        tokens.update(i, consumed_by(tokens[i], user))
    } else {
        tokens
    }
}

/// The number of successful attempts among `attempts` (each a user and a
/// time), made one after the other on the token `v`.
pub open spec fn successes(
    tokens: Seq<InviteToken>,
    v: Seq<char>,
    attempts: Seq<(String, u64)>,
) -> nat
    decreases attempts.len(),
{
    if attempts.len() == 0 {
        0
    } else {
        let (user, now) = attempts[0];
        (if consume_result(tokens, v, now) is Ok { 1nat } else { 0nat }) + successes(
            consume_state(tokens, v, user, now),
            v,
            attempts.subrange(1, attempts.len() as int),
        )
    }
}

proof fn lemma_hex_len(b: Seq<u8>)
    ensures
        hex_of(b).len() == 2 * b.len(),
    decreases b.len(),
{
    reveal_strlit("0");
    reveal_strlit("1");
    reveal_strlit("2");
    reveal_strlit("3");
    reveal_strlit("4");
    reveal_strlit("5");
    reveal_strlit("6");
    reveal_strlit("7");
    reveal_strlit("8");
    reveal_strlit("9");
    reveal_strlit("a");
    reveal_strlit("b");
    reveal_strlit("c");
    reveal_strlit("d");
    reveal_strlit("e");
    reveal_strlit("f");
    if b.len() > 0 {
        lemma_hex_len(b.drop_last());
    }
}

/// Replacing a token by one with the same value keeps the values unique.
pub proof fn lemma_update_keeps_unique(tokens: Seq<InviteToken>, i: int, t: InviteToken)
    requires
        unique_values(tokens),
        unclaimed_when_pending(tokens),
        0 <= i < tokens.len(),
        t.value@ == tokens[i].value@,
        !t.consumed ==> t.consumed_by is None,
    ensures
        unique_values(tokens.update(i, t)),
        unclaimed_when_pending(tokens.update(i, t)),
        has_token(tokens.update(i, t), t.value@),
        token_index(tokens.update(i, t), t.value@) == i,
{
    let u = tokens.update(i, t);
    assert forall|a: int, b: int|
        0 <= a < u.len() && 0 <= b < u.len() && a != b implies (#[trigger] u[a]).value@
        != (#[trigger] u[b]).value@ by {
        assert(u[a].value@ == tokens[a].value@);
        assert(u[b].value@ == tokens[b].value@);
    }
    assert(u[i].value@ == t.value@);
    assert forall|a: int| 0 <= a < u.len() && !(#[trigger] u[a]).consumed implies u[a].consumed_by is None by {
        if a != i {
            assert(u[a] == tokens[a]);
        }
    }
    let j = token_index(u, t.value@);
    if j != i {
        assert(u[j].value@ != u[i].value@);
    }
}

/// Once the token `v` is consumed, no later attempt succeeds.
proof fn lemma_consumed_stays(tokens: Seq<InviteToken>, v: Seq<char>, attempts: Seq<(String, u64)>)
    requires
        has_token(tokens, v),
        tokens[token_index(tokens, v)].consumed,
    ensures
        successes(tokens, v, attempts) == 0,
    decreases attempts.len(),
{
    if attempts.len() > 0 {
        lemma_consumed_stays(tokens, v, attempts.subrange(1, attempts.len() as int));
    }
}

/// Releasing a token right after a successful consumption by the same user
/// gives back the tokens as they were.
pub proof fn lemma_release_undoes(tokens: Seq<InviteToken>, v: Seq<char>, user: String, now: u64)
    requires
        unique_values(tokens),
        unclaimed_when_pending(tokens),
        consume_result(tokens, v, now) is Ok,
    ensures
        has_token(consume_state(tokens, v, user, now), v),
        token_index(consume_state(tokens, v, user, now), v) == token_index(tokens, v),
        held_by(consume_state(tokens, v, user, now)[token_index(tokens, v)], user@),
        consume_state(tokens, v, user, now).update(
            token_index(tokens, v),
            released(consume_state(tokens, v, user, now)[token_index(tokens, v)]),
        ) == tokens,
{
    let i = token_index(tokens, v);
    let c = consume_state(tokens, v, user, now);
    lemma_update_keeps_unique(tokens, i, consumed_by(tokens[i], user));
    assert(released(c[i]) == tokens[i]);
    assert(c.update(i, released(c[i])) =~= tokens);
}

/// Attempts on a token value that no token has all fail.
proof fn lemma_absent_stays(tokens: Seq<InviteToken>, v: Seq<char>, attempts: Seq<(String, u64)>)
    requires
        !has_token(tokens, v),
    ensures
        successes(tokens, v, attempts) == 0,
    decreases attempts.len(),
{
    if attempts.len() > 0 {
        lemma_absent_stays(tokens, v, attempts.subrange(1, attempts.len() as int));
    }
}

/// However many attempts are made on one token, one after the other, at most
/// one of them consumes it.
pub proof fn lemma_at_most_once(tokens: Seq<InviteToken>, v: Seq<char>, attempts: Seq<(String, u64)>)
    requires
        unique_values(tokens),
        unclaimed_when_pending(tokens),
    ensures
        successes(tokens, v, attempts) <= 1,
    decreases attempts.len(),
{
    if attempts.len() > 0 {
        let (user, now) = attempts[0];
        let rest = attempts.subrange(1, attempts.len() as int);
        if !has_token(tokens, v) {
            lemma_absent_stays(tokens, v, attempts);
        } else if consume_result(tokens, v, now) is Ok {
            let i = token_index(tokens, v);
            lemma_update_keeps_unique(tokens, i, consumed_by(tokens[i], user));
            lemma_consumed_stays(consume_state(tokens, v, user, now), v, rest);
        } else {
            lemma_at_most_once(tokens, v, rest);
        }
    }
}

/// Of any non-empty run of attempts on a token that is unconsumed and
/// unexpired at every attempt, exactly one consumes it: the first; every
/// other one is told the token was already used.
pub proof fn lemma_single_use(tokens: Seq<InviteToken>, v: Seq<char>, attempts: Seq<(String, u64)>)
    requires
        unique_values(tokens),
        unclaimed_when_pending(tokens),
        has_token(tokens, v),
        !tokens[token_index(tokens, v)].consumed,
        attempts.len() > 0,
        forall|k: int|
            0 <= k < attempts.len() ==> (#[trigger] attempts[k]).1 < tokens[token_index(
                tokens,
                v,
            )].expires_at,
    ensures
        successes(tokens, v, attempts) == 1,
        consume_result(tokens, v, attempts[0].1) is Ok,
        forall|k: int|
            1 <= k < attempts.len() ==> consume_result(
                consume_state(tokens, v, attempts[0].0, attempts[0].1),
                v,
                (#[trigger] attempts[k]).1,
            ) == Err::<(), TokenError>(TokenError::AlreadyUsed),
{
    let (user, now) = attempts[0];
    assert(attempts[0].1 < tokens[token_index(tokens, v)].expires_at);
    let i = token_index(tokens, v);
    lemma_update_keeps_unique(tokens, i, consumed_by(tokens[i], user));
    lemma_consumed_stays(
        consume_state(tokens, v, user, now),
        v,
        attempts.subrange(1, attempts.len() as int),
    );
}

/// What revoking `v` does: `before` becomes `after` and `r` is returned.
pub open spec fn revoked(
    before: Seq<InviteToken>,
    after: Seq<InviteToken>,
    v: Seq<char>,
    r: Result<(), TokenError>,
) -> bool {
    if !has_token(before, v) {
        r == Err::<(), TokenError>(TokenError::NotFound) && after == before
    } else if before[token_index(before, v)].consumed {
        r == Err::<(), TokenError>(TokenError::AlreadyUsed) && after == before
    } else {
        r is Ok && after == before.remove(token_index(before, v))
    }
}

/// The store of invite tokens.
pub struct TokenManager {
    tokens: Vec<InviteToken>,
}

fn copy_opt(s: &Option<String>) -> (r: Option<String>)
    ensures
        r == *s,
{
    match s {
        Some(x) => Some(x.clone()),
        None => None,
    }
}

/// A copy of `t`.
pub fn copy_token(t: &InviteToken) -> (r: InviteToken)
    ensures
        r == *t,
{
    InviteToken {
        value: t.value.clone(),
        issued_by: copy_opt(&t.issued_by),
        issued_at: t.issued_at,
        expires_at: t.expires_at,
        consumed: t.consumed,
        consumed_by: copy_opt(&t.consumed_by),
    }
}

impl TokenManager {
    pub closed spec fn tokens(&self) -> Seq<InviteToken> {
        self.tokens@
    }

    pub open spec fn wf(&self) -> bool {
        unique_values(self.tokens()) && unclaimed_when_pending(self.tokens())
    }

    /// An empty store.
    pub fn new() -> (r: TokenManager)
        ensures
            r.wf(),
            r.tokens() == Seq::<InviteToken>::empty(),
    {
        TokenManager { tokens: Vec::new() }
    }

    fn index_of(&self, v: &String) -> (r: Option<usize>)
        requires
            self.wf(),
        ensures
            match r {
                Some(i) => has_token(self.tokens(), v@) && i == token_index(self.tokens(), v@),
                None => !has_token(self.tokens(), v@),
            },
    {
        let mut i: usize = 0;
        while i < self.tokens.len()
            invariant
                i <= self.tokens@.len(),
                self.wf(),
                forall|k: int| 0 <= k < i ==> (#[trigger] self.tokens@[k]).value@ != v@,
            decreases self.tokens@.len() - i,
        {
            if self.tokens[i].value == *v {
                proof {
                    assert(has_token(self.tokens@, v@));
                    let j = token_index(self.tokens@, v@);
                    assert(self.tokens@[j].value@ == v@);
                    if j != i as int {
                        assert(self.tokens@[i as int].value@ != self.tokens@[j].value@);
                    }
                }
                return Some(i);
            }
            i = i + 1;
        }
        None
    }

    /// Stores a fresh token whose value is `bytes` in hex, issued by `issuer`
    /// at `now` and valid for `duration` seconds.
    pub fn issue_with(
        &mut self,
        bytes: &Vec<u8>,
        issuer: Option<String>,
        now: u64,
        duration: u64,
    ) -> (r: Result<InviteToken, DBError>)
        requires
            old(self).wf(),
        ensures
            final(self).wf(),
            now + duration > u64::MAX ==> (r matches Err(DBError::TimeFailure(_))),
            now + duration <= u64::MAX && has_token(old(self).tokens(), hex_of(bytes@)) ==> (
            r matches Err(DBError::ExecError(_))),
            r is Err ==> final(self).tokens() == old(self).tokens(),
            now + duration <= u64::MAX && !has_token(old(self).tokens(), hex_of(bytes@)) ==> r is Ok,
            r is Ok ==> {
                let t = r->Ok_0;
                &&& t.value@ == hex_of(bytes@)
                &&& t.issued_by == issuer
                &&& t.issued_at == now
                &&& t.expires_at == now + duration
                &&& !t.consumed
                &&& t.consumed_by is None
                &&& final(self).tokens() == old(self).tokens().push(t)
            },
    {
        let expires_at = match now.checked_add(duration) {
            Some(e) => e,
            None => {
                return Err(DBError::TimeFailure(String::from_str("token expiry overflows")));
            },
        };
        let value = to_hex(bytes);
        if self.index_of(&value).is_some() {
            return Err(DBError::ExecError(String::from_str("token value already exists")));
        }
        let t = InviteToken {
            value,
            issued_by: issuer,
            issued_at: now,
            expires_at,
            consumed: false,
            consumed_by: None,
        };
        let out = copy_token(&t);
        let ghost before = self.tokens@;
        self.tokens.push(t);
        proof {
            assert forall|i: int, j: int|
                0 <= i < self.tokens@.len() && 0 <= j < self.tokens@.len() && i
                    != j implies (#[trigger] self.tokens@[i]).value@
                != (#[trigger] self.tokens@[j]).value@ by {
                if i < before.len() {
                    assert(before[i] == self.tokens@[i]);
                }
                if j < before.len() {
                    assert(before[j] == self.tokens@[j]);
                }
            }
            assert forall|a: int| 0 <= a < self.tokens@.len() && !(#[trigger] self.tokens@[a]).consumed implies self.tokens@[a].consumed_by is None by {
                if a < before.len() {
                    assert(before[a] == self.tokens@[a]);
                }
            }
        }
        Ok(out)
    }

    /// Issues a fresh token under `policy`: `token_size` random bytes,
    /// valid for `token_duration_seconds` from `now`.
    pub fn issue(&mut self, policy: &Registration, issuer: Option<String>, now: u64) -> (r: Result<
        InviteToken,
        DBError,
    >)
        requires
            old(self).wf(),
        ensures
            final(self).wf(),
            now + policy.token_duration_seconds > u64::MAX <==> (r matches Err(
                DBError::TimeFailure(_),
            )),
            r is Err ==> final(self).tokens() == old(self).tokens(),
            r is Err && now + policy.token_duration_seconds <= u64::MAX ==> exists|i: int|
                0 <= i < old(self).tokens().len() && (#[trigger] old(self).tokens()[i]).value@.len()
                    == 2 * policy.token_size,
            r is Ok ==> {
                let t = r->Ok_0;
                &&& t.value@.len() == 2 * policy.token_size
                &&& t.issued_by == issuer
                &&& t.issued_at == now
                &&& t.expires_at == now + policy.token_duration_seconds
                &&& !t.consumed
                &&& t.consumed_by is None
                &&& !has_token(old(self).tokens(), t.value@)
                &&& final(self).tokens() == old(self).tokens().push(t)
            },
    {
        let bytes = random_bytes(policy.token_size as usize);
        proof {
            lemma_hex_len(bytes@);
        }
        let ghost t0 = self.tokens@;
        let r = self.issue_with(&bytes, issuer, now, policy.token_duration_seconds);
        proof {
            if r is Err && now + policy.token_duration_seconds <= u64::MAX {
                let i = choose|i: int| 0 <= i < t0.len() && (#[trigger] t0[i]).value@ == hex_of(bytes@);
                assert(t0[i].value@.len() == 2 * policy.token_size);
            }
        }
        r
    }

    /// Atomically consumes the token `v` on behalf of `user`: it succeeds
    /// only if the token exists, is unconsumed and has not expired at `now`.
    /// On any failure nothing changes.
    pub fn validate_and_consume(&mut self, v: &String, user: &String, now: u64) -> (r: Result<
        (),
        TokenError,
    >)
        requires
            old(self).wf(),
        ensures
            final(self).wf(),
            r == consume_result(old(self).tokens(), v@, now),
            final(self).tokens() == consume_state(old(self).tokens(), v@, *user, now),
    {
        match self.index_of(v) {
            None => Err(TokenError::NotFound),
            Some(i) => {
                if self.tokens[i].consumed {
                    Err(TokenError::AlreadyUsed)
                } else if now >= self.tokens[i].expires_at {
                    Err(TokenError::Expired)
                } else {
                    let mut t = copy_token(&self.tokens[i]);
                    t.consumed = true;
                    t.consumed_by = Some(user.clone());
                    let ghost before = self.tokens@;
                    self.tokens.set(i, t);
                    proof {
                        assert(self.tokens@ == before.update(
                            i as int,
                            consumed_by(before[i as int], *user),
                        ));
                        lemma_update_keeps_unique(before, i as int, consumed_by(before[i as int], *user));
                    }
                    Ok(())
                }
            },
        }
    }

    /// Undoes a consumption of `v` by `user` whose registration could not be
    /// completed, so that the token is not lost. Returns whether it did.
    pub fn release(&mut self, v: &String, user: &String) -> (r: bool)
        requires
            old(self).wf(),
        ensures
            final(self).wf(),
            r == (has_token(old(self).tokens(), v@) && held_by(old(self).tokens()[token_index(
                old(self).tokens(),
                v@,
            )], user@)),
            r ==> final(self).tokens() == old(self).tokens().update(
                token_index(old(self).tokens(), v@),
                released(old(self).tokens()[token_index(old(self).tokens(), v@)]),
            ),
            !r ==> final(self).tokens() == old(self).tokens(),
    {
        match self.index_of(v) {
            None => false,
            Some(i) => {
                let owned = match &self.tokens[i].consumed_by {
                    Some(u) => *u == *user,
                    None => false,
                };
                if !owned {
                    return false;
                }
                let mut t = copy_token(&self.tokens[i]);
                t.consumed = false;
                t.consumed_by = None;
                let ghost before = self.tokens@;
                self.tokens.set(i, t);
                proof {
                    assert(self.tokens@ == before.update(i as int, released(before[i as int])));
                    lemma_update_keeps_unique(before, i as int, released(before[i as int]));
                }
                true
            },
        }
    }

    /// Deletes the unconsumed token `v`. A consumed token is history and
    /// stays.
    pub fn revoke(&mut self, v: &String) -> (r: Result<(), TokenError>)
        requires
            old(self).wf(),
        ensures
            final(self).wf(),
            !has_token(old(self).tokens(), v@) ==> r == Err::<(), TokenError>(TokenError::NotFound),
            has_token(old(self).tokens(), v@) && old(self).tokens()[token_index(
                old(self).tokens(),
                v@,
            )].consumed ==> r == Err::<(), TokenError>(TokenError::AlreadyUsed),
            r is Err ==> final(self).tokens() == old(self).tokens(),
            r is Ok <==> has_token(old(self).tokens(), v@) && !old(self).tokens()[token_index(
                old(self).tokens(),
                v@,
            )].consumed,
            r is Ok ==> final(self).tokens() == old(self).tokens().remove(
                token_index(old(self).tokens(), v@),
            ),
    {
        match self.index_of(v) {
            None => Err(TokenError::NotFound),
            Some(i) => {
                if self.tokens[i].consumed {
                    return Err(TokenError::AlreadyUsed);
                }
                let ghost before = self.tokens@;
                self.tokens.remove(i);
                proof {
                    assert forall|a: int, b: int|
                        0 <= a < self.tokens@.len() && 0 <= b < self.tokens@.len() && a
                            != b implies (#[trigger] self.tokens@[a]).value@
                        != (#[trigger] self.tokens@[b]).value@ by {
                        let a0 = if a < i { a } else { a + 1 };
                        let b0 = if b < i { b } else { b + 1 };
                        assert(self.tokens@[a] == before[a0]);
                        assert(self.tokens@[b] == before[b0]);
                    }
                    assert forall|a: int| 0 <= a < self.tokens@.len() && !(#[trigger] self.tokens@[a]).consumed implies self.tokens@[a].consumed_by is None by {
                        let a0 = if a < i { a } else { a + 1 };
                        assert(self.tokens@[a] == before[a0]);
                    }
                }
                Ok(())
            },
        }
    }

    /// Puts back a token read from durable storage. A token whose value is
    /// already present, or an unconsumed one with a consumer, is refused.
    pub fn restore(&mut self, t: InviteToken) -> (r: Result<(), DBError>)
        requires
            old(self).wf(),
        ensures
            final(self).wf(),
            r is Ok <==> !has_token(old(self).tokens(), t.value@) && (t.consumed
                || t.consumed_by is None),
            r is Ok ==> final(self).tokens() == old(self).tokens().push(t),
            r is Err ==> (r matches Err(DBError::ExecError(_))) && final(self).tokens() == old(
                self,
            ).tokens(),
    {
        if !t.consumed && t.consumed_by.is_some() {
            return Err(DBError::ExecError(String::from_str("pending token has a consumer")));
        }
        if self.index_of(&t.value).is_some() {
            return Err(DBError::ExecError(String::from_str("token value already exists")));
        }
        let ghost before = self.tokens@;
        self.tokens.push(t);
        proof {
            assert forall|i: int, j: int|
                0 <= i < self.tokens@.len() && 0 <= j < self.tokens@.len() && i
                    != j implies (#[trigger] self.tokens@[i]).value@
                != (#[trigger] self.tokens@[j]).value@ by {
                if i < before.len() {
                    assert(before[i] == self.tokens@[i]);
                }
                if j < before.len() {
                    assert(before[j] == self.tokens@[j]);
                }
            }
            assert forall|a: int| 0 <= a < self.tokens@.len() && !(#[trigger] self.tokens@[a]).consumed implies self.tokens@[a].consumed_by is None by {
                if a < before.len() {
                    assert(before[a] == self.tokens@[a]);
                }
            }
        }
        Ok(())
    }

    /// The tokens issued by `issuer`, in issuance order.
    pub fn list_issued_by(&self, issuer: &String) -> (r: Vec<InviteToken>)
        ensures
            r@ == self.tokens().filter(|t: InviteToken| issued_by(t, issuer@)),
    {
        let ghost pred = |t: InviteToken| issued_by(t, issuer@);
        let mut out: Vec<InviteToken> = Vec::new();
        let mut i: usize = 0;
        proof {
            reveal(Seq::filter);
            assert(self.tokens@.subrange(0, 0).filter(pred) =~= Seq::<InviteToken>::empty());
        }
        while i < self.tokens.len()
            invariant
                i <= self.tokens@.len(),
                pred == (|t: InviteToken| issued_by(t, issuer@)),
                out@ == self.tokens@.subrange(0, i as int).filter(pred),
            decreases self.tokens@.len() - i,
        {
            let mine = match &self.tokens[i].issued_by {
                Some(u) => *u == *issuer,
                None => false,
            };
            proof {
                reveal(Seq::filter);
                let next = self.tokens@.subrange(0, i + 1);
                assert(next.drop_last() =~= self.tokens@.subrange(0, i as int));
                assert(next.last() == self.tokens@[i as int]);
            }
            if mine {
                out.push(copy_token(&self.tokens[i]));
            }
            i = i + 1;
        }
        proof {
            assert(self.tokens@.subrange(0, self.tokens@.len() as int) =~= self.tokens@);
        }
        out
    }

    /// Every token, in issuance order.
    pub fn list(&self) -> (r: Vec<InviteToken>)
        ensures
            r@ == self.tokens(),
    {
        let mut out: Vec<InviteToken> = Vec::new();
        let mut i: usize = 0;
        while i < self.tokens.len()
            invariant
                i <= self.tokens@.len(),
                out@ == self.tokens@.subrange(0, i as int),
            decreases self.tokens@.len() - i,
        {
            out.push(copy_token(&self.tokens[i]));
            proof {
                assert(out@ =~= self.tokens@.subrange(0, i + 1));
            }
            i = i + 1;
        }
        proof {
            assert(self.tokens@.subrange(0, self.tokens@.len() as int) =~= self.tokens@);
        }
        out
    }
}

} // verus!
