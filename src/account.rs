use vstd::prelude::*;
use vstd::string::*;
use vstd::utf8::encode_utf8;

use crate::config::{Config, CredentialSize, Durations, Registration};
use crate::error::AuthError;
use crate::policy::{check_credentials, credentials_fit};
use crate::secret::{
    code_accepted, hash, password_verifies, provision, provisioning_qr, provisioning_url,
    totp_qr, totp_qr_drawn, totp_url, verify, verify_code, wipe, CODE_DIGITS, SECRET_BYTES,
    STEP_SECONDS,
};
use crate::session::{start, Session};
use crate::store::{has_user, unique_usernames, Account, CredentialStore};
use crate::token::{
    consume_result, consume_state, consumed_by, issued_by, lemma_release_undoes,
    lemma_update_keeps_unique, revoked, token_index, InviteToken, TokenError, TokenManager,
};

verus! {

/// A well-formed Argon2id hash that no password is expected to match. Login
/// checks against it when the user is unknown, so that an unknown user costs
/// as much time as a wrong password.
pub const DECOY_HASH: &'static str = "$argon2id$v=19$m=19456,t=2,p=1$ZGVjb3lzYWx0ZGVjb3lzYQ$q83vEjRWh5CZiQ6MkZsYZcvPtK1Dm9mqmBgL3M2aY0A";

/// Credentials sent by a client to log in.
#[derive(Debug)]
pub struct Login {
    pub user: String,
    pub password: String,
    /// Second-factor code, for accounts that enrolled one.
    pub code: Option<String>,
}

/// Credentials and invite token sent by a client to register.
#[derive(Debug)]
pub struct Register {
    pub user: String,
    pub password: String,
    pub token: String,
    /// Whether the second factor is handed out as a QR image rather than a URL.
    pub second_factor_as_qr: bool,
}

/// How a new second factor is handed to the user.
#[derive(Debug)]
pub enum Provisioning {
    /// An `otpauth://` URL.
    Url(String),
    /// A base64 PNG image of the URL's QR code.
    Qr(String),
}

/// What a successful registration yields.
#[derive(Debug)]
pub struct Registered {
    pub session: Session,
    pub provisioning: Option<Provisioning>,
}

/// The account operations over one credential store and one token store.
pub struct Gate {
    pub cred_size: CredentialSize,
    /// Issuance policy; `None` disables registration.
    pub registration: Option<Registration>,
    pub durations: Durations,
    /// Whether new accounts enroll a second factor.
    pub second_factor: bool,
    pub store: CredentialStore,
    pub tokens: TokenManager,
}

/// Whether `a` passes the second-factor check with `code` at `now`.
pub open spec fn second_factor_ok(a: Account, code: Option<String>, now: u64) -> bool {
    match a.second_factor_secret {
        None => true,
        Some(s) => code matches Some(c) && code_accepted(s@, encode_utf8(c@), now),
    }
}

/// Whether `a` is the account of `user` and the credentials are right for it.
pub open spec fn credentials_match(
    a: Account,
    user: Seq<char>,
    password: Seq<u8>,
    code: Option<String>,
    now: u64,
) -> bool {
    a.username@ == user && password_verifies(password, a.password_hash@) && second_factor_ok(
        a,
        code,
        now,
    )
}

/// Whether a login of `user` with these credentials succeeds against
/// `accounts`.
pub open spec fn login_accepts(
    accounts: Seq<Account>,
    user: Seq<char>,
    password: Seq<u8>,
    code: Option<String>,
    now: u64,
) -> bool {
    exists|i: int|
        0 <= i < accounts.len() && credentials_match(#[trigger] accounts[i], user, password, code, now)
}

/// Whether `user` names an admin account in `accounts`.
pub open spec fn admin_of(accounts: Seq<Account>, user: Seq<char>) -> bool {
    exists|i: int|
        0 <= i < accounts.len() && (#[trigger] accounts[i]).username@ == user && accounts[i].is_admin
}

/// A login of a user that has no account and a login with a wrong password
/// for an existing account are refused alike: neither is accepted, so both
/// end in the same `InvalidCredentials`.
pub proof fn lemma_uniform_rejection(
    accounts: Seq<Account>,
    user: Seq<char>,
    password: Seq<u8>,
    code: Option<String>,
    now: u64,
)
    requires
        unique_usernames(accounts),
    ensures
        !has_user(accounts, user) ==> !login_accepts(accounts, user, password, code, now),
        forall|i: int|
            0 <= i < accounts.len() && (#[trigger] accounts[i]).username@ == user
                && !password_verifies(password, accounts[i].password_hash@) ==> !login_accepts(
                accounts,
                user,
                password,
                code,
                now,
            ),
{
    assert forall|i: int|
        0 <= i < accounts.len() && (#[trigger] accounts[i]).username@ == user
            && !password_verifies(password, accounts[i].password_hash@) implies !login_accepts(
        accounts,
        user,
        password,
        code,
        now,
    ) by {
        assert forall|j: int| 0 <= j < accounts.len() implies !credentials_match(
            #[trigger] accounts[j],
            user,
            password,
            code,
            now,
        ) by {
            if j != i && accounts[j].username@ == user {
                assert(accounts[i].username@ != accounts[j].username@);
            }
        }
    }
    if !has_user(accounts, user) {
        assert forall|j: int| 0 <= j < accounts.len() implies !credentials_match(
            #[trigger] accounts[j],
            user,
            password,
            code,
            now,
        ) by {
            if accounts[j].username@ == user {
                assert(has_user(accounts, user));
            }
        }
    }
}

/// A login request with an empty field is malformed.
pub open spec fn malformed_login(user: Seq<char>, password: Seq<u8>) -> bool {
    user.len() == 0 || password.len() == 0
}

/// The account that a registration of `user` creates.
pub open spec fn registered_account(
    a: Account,
    user: Seq<char>,
    password: Seq<u8>,
    second_factor: bool,
    now: u64,
) -> bool {
    &&& a.username@ == user
    &&& password_verifies(password, a.password_hash@)
    &&& !a.is_admin
    &&& a.created_at == now
    &&& (a.second_factor_secret is Some <==> second_factor)
}

/// Whether both hold a secret with the same bytes, or neither holds one.
pub open spec fn same_secret(a: Option<Vec<u8>>, b: Option<Vec<u8>>) -> bool {
    match (a, b) {
        (Some(x), Some(y)) => x@ == y@,
        (None, None) => true,
        _ => false,
    }
}

/// How the second factor of `a` is handed out.
pub open spec fn provisioning_of(a: Account, p: Option<Provisioning>, as_qr: bool) -> bool {
    match a.second_factor_secret {
        None => p is None,
        Some(s) => if as_qr {
            p matches Some(Provisioning::Qr(q)) && q@ == totp_qr(
                s@,
                CODE_DIGITS,
                STEP_SECONDS,
                a.username@,
            )
        } else {
            p matches Some(Provisioning::Url(u)) && u@ == totp_url(
                s@,
                CODE_DIGITS,
                STEP_SECONDS,
                a.username@,
            )
        },
    }
}

/// Registration is enabled, the credentials fit, the token can be consumed
/// at `now` and the username is free: nothing of this library's own stops
/// the registration.
pub open spec fn registration_ready(
    g: Gate,
    user: Seq<char>,
    password: Seq<u8>,
    token: Seq<char>,
    now: u64,
) -> bool {
    &&& g.registration is Some
    &&& credentials_fit(g.cred_size, user, password)
    &&& consume_result(g.tokens.tokens(), token, now) is Ok
    &&& !has_user(g.store.accounts(), user)
}

/// What a registration of `user` with `token` at `now` does, from `g` to
/// `h`, when it returns `r`: which refusal each failed check gives, that a
/// failure changes nothing, and what a success stores and hands back.
pub open spec fn register_effect(
    g: Gate,
    h: Gate,
    user: String,
    password: Seq<u8>,
    token: Seq<char>,
    as_qr: bool,
    now: u64,
    r: Result<Registered, AuthError>,
) -> bool {
    &&& h.cred_size == g.cred_size
    &&& h.registration == g.registration
    &&& h.durations == g.durations
    &&& h.second_factor == g.second_factor
    &&& (g.registration is None ==> (r matches Err(AuthError::RegistrationDisabled)))
    &&& (g.registration is Some && !credentials_fit(g.cred_size, user@, password) ==> (r matches Err(
        AuthError::BadCredentials(_),
    )))
    &&& (g.registration is Some && credentials_fit(g.cred_size, user@, password) && consume_result(
        g.tokens.tokens(),
        token,
        now,
    ) is Err ==> (r matches Err(AuthError::InvalidRegCredentials(_))))
    &&& (g.registration is Some && credentials_fit(g.cred_size, user@, password) && consume_result(
        g.tokens.tokens(),
        token,
        now,
    ) is Ok && has_user(g.store.accounts(), user@) ==> (r matches Err(AuthError::UserExists)))
    &&& (r is Err ==> h.store.accounts() == g.store.accounts() && h.tokens.tokens()
        == g.tokens.tokens())
    &&& (r matches Ok(reg) ==> {
        let a = h.store.accounts().last();
        &&& registration_ready(g, user@, password, token, now)
        &&& h.tokens.tokens() == consume_state(g.tokens.tokens(), token, user, now)
        &&& h.store.accounts() == g.store.accounts().push(a)
        &&& registered_account(a, user@, password, g.second_factor, now)
        &&& provisioning_of(a, reg.provisioning, as_qr)
        &&& reg.session.user == user
        &&& reg.session.login_at == now
        &&& reg.session.last_visit == now
    })
}

/// Once a registration has consumed a token, no later registration with
/// that token succeeds; one whose credentials fit is told that the token is
/// invalid.
pub proof fn lemma_register_single_use(
    g: Gate,
    h: Gate,
    first: String,
    first_password: Seq<u8>,
    token: Seq<char>,
    first_qr: bool,
    first_now: u64,
    first_result: Result<Registered, AuthError>,
    k: Gate,
    later: String,
    later_password: Seq<u8>,
    later_qr: bool,
    later_now: u64,
    later_result: Result<Registered, AuthError>,
)
    requires
        g.wf(),
        register_effect(g, h, first, first_password, token, first_qr, first_now, first_result),
        first_result is Ok,
        register_effect(h, k, later, later_password, token, later_qr, later_now, later_result),
    ensures
        later_result is Err,
        credentials_fit(h.cred_size, later@, later_password) ==> (later_result matches Err(
            AuthError::InvalidRegCredentials(_),
        )),
{
    let t = g.tokens.tokens();
    let i = token_index(t, token);
    lemma_update_keeps_unique(t, i, consumed_by(t[i], first));
    let c = h.tokens.tokens();
    assert(c == consume_state(t, token, first, first_now));
    assert(consume_result(c, token, later_now) == Err::<(), TokenError>(TokenError::AlreadyUsed));
}

/// Wipes both buffers.
fn discard(password: &mut Vec<u8>, secret: &mut Vec<u8>)
    ensures
        final(password)@.len() == 0,
        final(secret)@.len() == 0,
{
    wipe(password);
    wipe(secret);
}

impl Gate {
    pub open spec fn wf(&self) -> bool {
        self.store.wf() && self.tokens.wf()
    }

    /// A gate with no accounts and no tokens, configured from `config`.
    pub fn new(config: &Config, second_factor: bool) -> (r: Gate)
        ensures
            r.wf(),
            r.cred_size == config.cred_size,
            r.registration == config.registration,
            r.durations == config.duration,
            r.second_factor == second_factor,
            r.store.accounts().len() == 0,
            r.tokens.tokens().len() == 0,
    {
        Gate {
            cred_size: config.cred_size,
            registration: config.registration,
            durations: config.duration,
            second_factor,
            store: CredentialStore::new(),
            tokens: TokenManager::new(),
        }
    }

    /// Registers `user` with `password`, consuming the invite `token`, and
    /// starts a session; when second factors are enabled, a fresh secret is
    /// enrolled. The password is wiped before returning. If the account
    /// cannot be created after the token was consumed, the token is released
    /// again: a failed registration changes nothing.
    pub fn register(
        &mut self,
        user: String,
        password: Vec<u8>,
        token: &String,
        second_factor_as_qr: bool,
        now: u64,
    ) -> (r: Result<Registered, AuthError>)
        requires
            old(self).wf(),
        ensures
            final(self).wf(),
            register_effect(*old(self), *final(self), user, password@, token@, second_factor_as_qr, now, r),
            registration_ready(*old(self), user@, password@, token@, now) && !(old(self).second_factor
                && second_factor_as_qr) ==> r is Ok,
            registration_ready(*old(self), user@, password@, token@, now) ==> r is Ok || (old(
                self,
            ).second_factor && second_factor_as_qr && (r matches Err(AuthError::InternalError(_)))),
            r matches Ok(reg) ==> old(self).second_factor ==> (
            final(self).store.accounts().last().second_factor_secret matches Some(k) && k@.len()
                == SECRET_BYTES),
    {
        let secret = if self.second_factor {
            provision()
        } else {
            Vec::new()
        };
        self.register_with(user, password, token, second_factor_as_qr, now, secret)
    }

    /// Registration as `register` does it, with `secret` as the second-factor
    /// secret to enroll (unused when second factors are disabled). Both the
    /// password and the caller's copy of the secret are wiped.
    pub fn register_with(
        &mut self,
        user: String,
        password: Vec<u8>,
        token: &String,
        second_factor_as_qr: bool,
        now: u64,
        secret: Vec<u8>,
    ) -> (r: Result<Registered, AuthError>)
        requires
            old(self).wf(),
        ensures
            final(self).wf(),
            register_effect(*old(self), *final(self), user, password@, token@, second_factor_as_qr, now, r),
            registration_ready(*old(self), user@, password@, token@, now) ==> (r is Ok <==> !(old(
                self,
            ).second_factor && second_factor_as_qr && !totp_qr_drawn(
                secret@,
                CODE_DIGITS,
                STEP_SECONDS,
                user@,
            ))),
            registration_ready(*old(self), user@, password@, token@, now) && r is Err ==> (r matches Err(
                AuthError::InternalError(_),
            )),
            r matches Ok(reg) ==> old(self).second_factor ==> (
            final(self).store.accounts().last().second_factor_secret matches Some(k) && k@ == secret@),
    {
        let mut pw = password;
        let mut sk = secret;
        let ghost t0 = self.tokens.tokens();
        if self.registration.is_none() {
            discard(&mut pw, &mut sk);
            return Err(AuthError::RegistrationDisabled);
        }
        if let Err(e) = check_credentials(&self.cred_size, &user, &pw) {
            discard(&mut pw, &mut sk);
            return Err(e);
        }
        if self.tokens.validate_and_consume(token, &user, now).is_err() {
            discard(&mut pw, &mut sk);
            return Err(
                AuthError::InvalidRegCredentials(
                    String::from_str("token is unknown, expired or used"),
                ),
            );
        }
        proof {
            lemma_release_undoes(t0, token@, user, now);
        }
        if self.store.find(&user).is_some() {
            self.tokens.release(token, &user);
            discard(&mut pw, &mut sk);
            return Err(AuthError::UserExists);
        }
        let provisioning = if self.second_factor {
            if second_factor_as_qr {
                match provisioning_qr(&sk, &user) {
                    Ok(q) => Some(Provisioning::Qr(q)),
                    Err(e) => {
                        self.tokens.release(token, &user);
                        discard(&mut pw, &mut sk);
                        return Err(e);
                    },
                }
            } else {
                Some(Provisioning::Url(provisioning_url(&sk, &user)))
            }
        } else {
            None
        };
        let hashed = match hash(&pw) {
            Ok(h) => h,
            Err(e) => {
                self.tokens.release(token, &user);
                discard(&mut pw, &mut sk);
                return Err(e);
            },
        };
        let stored = if self.second_factor {
            Some(sk.clone())
        } else {
            None
        };
        discard(&mut pw, &mut sk);
        let account = Account {
            username: user.clone(),
            password_hash: hashed,
            second_factor_secret: stored,
            is_admin: false,
            created_at: now,
        };
        match self.store.create(account) {
            Ok(()) => Ok(Registered { session: start(user, now), provisioning }),
            Err(_) => {
                self.tokens.release(token, &user);
                Err(AuthError::UserExists)
            },
        }
    }

    /// Creates an account directly, without an invite token (the operator's
    /// path). Returns the second-factor secret when one was enrolled. The
    /// password is wiped before returning.
    pub fn add_user(&mut self, user: String, password: Vec<u8>, is_admin: bool, now: u64) -> (r:
        Result<Option<Vec<u8>>, AuthError>)
        requires
            old(self).wf(),
        ensures
            final(self).wf(),
            final(self).tokens == old(self).tokens,
            final(self).cred_size == old(self).cred_size,
            final(self).registration == old(self).registration,
            final(self).durations == old(self).durations,
            final(self).second_factor == old(self).second_factor,
            !credentials_fit(old(self).cred_size, user@, password@) ==> (r matches Err(
                AuthError::BadCredentials(_),
            )),
            credentials_fit(old(self).cred_size, user@, password@) && has_user(
                old(self).store.accounts(),
                user@,
            ) ==> (r matches Err(AuthError::UserExists)),
            credentials_fit(old(self).cred_size, user@, password@) && !has_user(
                old(self).store.accounts(),
                user@,
            ) ==> r is Ok,
            r is Err ==> final(self).store.accounts() == old(self).store.accounts(),
            r matches Ok(secret) ==> {
                let a = final(self).store.accounts().last();
                &&& final(self).store.accounts() == old(self).store.accounts().push(a)
                &&& a.username@ == user@
                &&& password_verifies(password@, a.password_hash@)
                &&& a.is_admin == is_admin
                &&& a.created_at == now
                &&& same_secret(a.second_factor_secret, secret)
                &&& (secret is Some <==> old(self).second_factor)
                &&& (secret matches Some(k) ==> k@.len() == SECRET_BYTES)
            },
    {
        let mut pw = password;
        if let Err(e) = check_credentials(&self.cred_size, &user, &pw) {
            wipe(&mut pw);
            return Err(e);
        }
        if self.store.find(&user).is_some() {
            wipe(&mut pw);
            return Err(AuthError::UserExists);
        }
        let hashed = match hash(&pw) {
            Ok(h) => h,
            Err(e) => {
                wipe(&mut pw);
                return Err(e);
            },
        };
        wipe(&mut pw);
        let secret = if self.second_factor {
            Some(provision())
        } else {
            None
        };
        let out = match &secret {
            Some(s) => Some(s.clone()),
            None => None,
        };
        let account = Account {
            username: user,
            password_hash: hashed,
            second_factor_secret: secret,
            is_admin,
            created_at: now,
        };
        match self.store.create(account) {
            Ok(()) => Ok(out),
            Err(_) => Err(AuthError::UserExists),
        }
    }

    /// Checks `user`'s credentials and starts a session. Every mismatch,
    /// unknown users included, gives the same `InvalidCredentials`; an unknown
    /// user is still checked against a decoy hash. The password is wiped
    /// before returning.
    pub fn login(&self, user: &String, password: Vec<u8>, code: Option<String>, now: u64) -> (r:
        Result<Session, AuthError>)
        requires
            self.wf(),
        ensures
            malformed_login(user@, password@) ==> (r matches Err(AuthError::BadCredentials(_))),
            !malformed_login(user@, password@) ==> (r is Ok <==> login_accepts(
                self.store.accounts(),
                user@,
                password@,
                code,
                now,
            )),
            !malformed_login(user@, password@) && r is Err ==> (r matches Err(
                AuthError::InvalidCredentials,
            )),
            r matches Ok(s) ==> s.user@ == user@ && s.login_at == now && s.last_visit == now,
    {
        let mut pw = password;
        if user.as_str().is_empty() || pw.len() == 0 {
            wipe(&mut pw);
            return Err(AuthError::BadCredentials(String::from_str("empty username or password")));
        }
        match self.store.find(user) {
            None => {
                let decoy = String::from_str(DECOY_HASH);
                let _ = verify(&pw, &decoy);
                wipe(&mut pw);
                proof {
                    assert forall|i: int| 0 <= i < self.store.accounts().len() implies !credentials_match(
                        #[trigger] self.store.accounts()[i],
                        user@,
                        password@,
                        code,
                        now,
                    ) by {
                        assert(self.store.accounts()[i].username@ != user@);
                    }
                }
                Err(AuthError::InvalidCredentials)
            },
            Some(a) => {
                let password_ok = verify(&pw, &a.password_hash);
                wipe(&mut pw);
                let code_ok = match &a.second_factor_secret {
                    None => true,
                    Some(s) => match &code {
                        Some(c) => verify_code(s, c, now),
                        None => false,
                    },
                };
                proof {
                    let accounts = self.store.accounts();
                    let k = choose|k: int| 0 <= k < accounts.len() && accounts[k] == *a;
                    assert(accounts[k] == *a);
                    assert forall|i: int|
                        0 <= i < accounts.len() && credentials_match(
                            #[trigger] accounts[i],
                            user@,
                            password@,
                            code,
                            now,
                        ) implies i == k by {
                        if i != k {
                            assert(accounts[i].username@ != accounts[k].username@);
                        }
                    }
                }
                if password_ok && code_ok {
                    Ok(start(user.clone(), now))
                } else {
                    Err(AuthError::InvalidCredentials)
                }
            },
        }
    }

    /// Ends `session` and then deletes its account. Without a session the
    /// request is refused; a session whose account is already gone is ended
    /// and reported as `InvalidCredentials`.
    pub fn delete_account(&mut self, session: &mut Option<Session>) -> (r: Result<(), AuthError>)
        requires
            old(self).wf(),
        ensures
            final(self).wf(),
            final(self).cred_size == old(self).cred_size,
            final(self).registration == old(self).registration,
            final(self).durations == old(self).durations,
            final(self).second_factor == old(self).second_factor,
            final(self).tokens == old(self).tokens,
            *final(session) is None,
            match *old(session) {
                None => (r matches Err(AuthError::InvalidCredentials)) && final(self).store.accounts()
                    == old(self).store.accounts(),
                Some(s) => {
                    &&& !has_user(final(self).store.accounts(), s.user@)
                    &&& (r is Ok <==> has_user(old(self).store.accounts(), s.user@))
                    &&& r is Err ==> (r matches Err(AuthError::InvalidCredentials))
                        && final(self).store.accounts() == old(self).store.accounts()
                    &&& r is Ok ==> exists|i: int|
                        0 <= i < old(self).store.accounts().len() && old(
                            self,
                        ).store.accounts()[i].username@ == s.user@ && final(self).store.accounts()
                            == old(self).store.accounts().remove(i)
                },
            },
    {
        let current = match session {
            Some(s) => s.user.clone(),
            None => {
                return Err(AuthError::InvalidCredentials);
            },
        };
        *session = None;
        match self.store.delete(&current) {
            Ok(()) => Ok(()),
            Err(_) => Err(AuthError::InvalidCredentials),
        }
    }

    /// Whether `user` names an admin account.
    pub fn is_admin(&self, user: &String) -> (r: bool)
        requires
            self.wf(),
        ensures
            r == admin_of(self.store.accounts(), user@),
    {
        match self.store.find(user) {
            Some(a) => {
                proof {
                    let accounts = self.store.accounts();
                    let k = choose|k: int| 0 <= k < accounts.len() && accounts[k] == *a;
                    assert(accounts[k] == *a);
                    assert forall|i: int|
                        0 <= i < accounts.len() && (#[trigger] accounts[i]).username@ == user@
                            implies i == k by {
                        if i != k {
                            assert(accounts[i].username@ != accounts[k].username@);
                        }
                    }
                }
                a.is_admin
            },
            None => false,
        }
    }
    /// Issues an invite token on behalf of the admin `issuer`.
    pub fn issue_token(&mut self, issuer: &String, now: u64) -> (r: Result<InviteToken, AuthError>)
        requires
            old(self).wf(),
        ensures
            final(self).wf(),
            final(self).store == old(self).store,
            final(self).cred_size == old(self).cred_size,
            final(self).registration == old(self).registration,
            final(self).durations == old(self).durations,
            final(self).second_factor == old(self).second_factor,
            old(self).registration is None ==> (r matches Err(AuthError::RegistrationDisabled)),
            old(self).registration is Some && !admin_of(old(self).store.accounts(), issuer@) ==> (
            r matches Err(AuthError::Forbidden)),
            r is Err ==> final(self).tokens.tokens() == old(self).tokens.tokens(),
            r matches Err(e) ==> e is RegistrationDisabled || e is Forbidden || e is InternalError,
            (r matches Err(AuthError::InternalError(_))) ==> {
                let policy = old(self).registration->Some_0;
                ||| now + policy.token_duration_seconds > u64::MAX
                ||| exists|i: int|
                    0 <= i < old(self).tokens.tokens().len() && (#[trigger] old(
                        self,
                    ).tokens.tokens()[i]).value@.len() == 2 * policy.token_size
            },
            r matches Ok(t) ==> {
                let policy = old(self).registration->Some_0;
                &&& admin_of(old(self).store.accounts(), issuer@)
                &&& t.value@.len() == 2 * policy.token_size
                &&& t.issued_by == Some(*issuer)
                &&& t.issued_at == now
                &&& t.expires_at == now + policy.token_duration_seconds
                &&& !t.consumed
                &&& final(self).tokens.tokens() == old(self).tokens.tokens().push(t)
            },
    {
        let policy = match self.registration {
            Some(p) => p,
            None => {
                return Err(AuthError::RegistrationDisabled);
            },
        };
        if !self.is_admin(issuer) {
            return Err(AuthError::Forbidden);
        }
        match self.tokens.issue(&policy, Some(issuer.clone()), now) {
            Ok(t) => Ok(t),
            Err(_) => Err(AuthError::InternalError(String::from_str("failed to issue a token"))),
        }
    }

    /// Every token, for the admin `admin`.
    pub fn list_tokens(&self, admin: &String) -> (r: Result<Vec<InviteToken>, AuthError>)
        requires
            self.wf(),
        ensures
            admin_of(self.store.accounts(), admin@) ==> (r matches Ok(v) && v@
                == self.tokens.tokens()),
            !admin_of(self.store.accounts(), admin@) ==> (r matches Err(AuthError::Forbidden)),
    {
        if !self.is_admin(admin) {
            return Err(AuthError::Forbidden);
        }
        Ok(self.tokens.list())
    }

    /// The tokens that `issuer` issued, for the admin `admin`.
    pub fn list_tokens_by(&self, admin: &String, issuer: &String) -> (r: Result<
        Vec<InviteToken>,
        AuthError,
    >)
        requires
            self.wf(),
        ensures
            admin_of(self.store.accounts(), admin@) ==> (r matches Ok(v) && v@
                == self.tokens.tokens().filter(|t: InviteToken| issued_by(t, issuer@))),
            !admin_of(self.store.accounts(), admin@) ==> (r matches Err(AuthError::Forbidden)),
    {
        if !self.is_admin(admin) {
            return Err(AuthError::Forbidden);
        }
        Ok(self.tokens.list_issued_by(issuer))
    }

    /// Revokes the unconsumed token `v`, for the admin `admin`. The inner
    /// result says whether the token could be revoked.
    pub fn revoke_token(&mut self, admin: &String, v: &String) -> (r: Result<
        Result<(), TokenError>,
        AuthError,
    >)
        requires
            old(self).wf(),
        ensures
            final(self).wf(),
            final(self).store == old(self).store,
            final(self).cred_size == old(self).cred_size,
            final(self).registration == old(self).registration,
            final(self).durations == old(self).durations,
            final(self).second_factor == old(self).second_factor,
            !admin_of(old(self).store.accounts(), admin@) ==> (r matches Err(AuthError::Forbidden))
                && final(self).tokens.tokens() == old(self).tokens.tokens(),
            admin_of(old(self).store.accounts(), admin@) ==> (r matches Ok(inner) && revoked(
                old(self).tokens.tokens(),
                final(self).tokens.tokens(),
                v@,
                inner,
            )),
    {
        if !self.is_admin(admin) {
            return Err(AuthError::Forbidden);
        }
        Ok(self.tokens.revoke(v))
    }
}

} // verus!
