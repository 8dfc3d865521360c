use tcloud::account::{Gate, Provisioning};
use tcloud::config::Config;
use tcloud::error::AuthError;

const DAY: u64 = 24 * 60 * 60;

fn gate(second_factor: bool) -> Gate {
    let mut g = Gate::new(&Config::default("test", "/tmp"), second_factor);
    g.add_user("root".to_string(), b"rootpassword".to_vec(), true, 0).expect("admin");
    g
}

fn code_at(secret: &[u8], time: u64) -> String {
    totp_rs::TOTP::new_unchecked(
        totp_rs::Algorithm::SHA1,
        6,
        1,
        30,
        secret.to_vec(),
        None,
        String::new(),
    )
    .generate(time)
}

#[test]
fn register_with_fresh_token() {
    let mut g = gate(false);
    let t = g.issue_token(&"root".to_string(), 1_000).expect("token");
    assert_eq!(t.expires_at, 1_000 + DAY);
    let reg = g
        .register("alice".to_string(), b"alicepassword".to_vec(), &t.value, false, 2_000)
        .expect("registered");
    assert_eq!(reg.session.user, "alice");
    assert_eq!(reg.session.login_at, 2_000);
    assert!(reg.provisioning.is_none());
    assert!(g.store.find(&"alice".to_string()).is_some());
    let tokens = g.list_tokens(&"root".to_string()).expect("list");
    assert!(tokens[0].consumed);
    assert_eq!(tokens[0].consumed_by, Some("alice".to_string()));
}

#[test]
fn register_twice_with_same_token() {
    let mut g = gate(false);
    let t = g.issue_token(&"root".to_string(), 1_000).expect("token");
    assert!(g
        .register("alice".to_string(), b"alicepassword".to_vec(), &t.value, false, 2_000)
        .is_ok());
    let again = g.register("bob".to_string(), b"bobpassword".to_vec(), &t.value, false, 2_001);
    assert!(matches!(again, Err(AuthError::InvalidRegCredentials(_))));
    assert_eq!(again.err().map(|e| e.http_code()), Some(401));
    assert!(g.store.find(&"bob".to_string()).is_none());
}

#[test]
fn register_with_expired_token() {
    let mut g = gate(false);
    let t = g.issue_token(&"root".to_string(), 1_000).expect("token");
    let r = g.register("alice".to_string(), b"alicepassword".to_vec(), &t.value, false, 1_000 + DAY + 1);
    assert!(matches!(r, Err(AuthError::InvalidRegCredentials(_))));
    assert!(g.store.find(&"alice".to_string()).is_none());
    assert!(!g.list_tokens(&"root".to_string()).expect("list")[0].consumed);
}

#[test]
fn register_with_unknown_token() {
    let mut g = gate(false);
    let r = g.register("alice".to_string(), b"alicepassword".to_vec(), &"00".to_string(), false, 1);
    assert!(matches!(r, Err(AuthError::InvalidRegCredentials(_))));
}

#[test]
fn register_disabled() {
    let mut config = Config::default("test", "/tmp");
    config.registration = None;
    let mut g = Gate::new(&config, false);
    let r = g.register("alice".to_string(), b"alicepassword".to_vec(), &"00".to_string(), false, 1);
    assert!(matches!(r, Err(AuthError::RegistrationDisabled)));
    assert_eq!(AuthError::RegistrationDisabled.http_code(), 404);
}

#[test]
fn register_bad_lengths_keep_token() {
    let mut g = gate(false);
    let t = g.issue_token(&"root".to_string(), 1_000).expect("token");
    let r = g.register("al".to_string(), b"alicepassword".to_vec(), &t.value, false, 1_001);
    assert!(matches!(r, Err(AuthError::BadCredentials(_))));
    let r = g.register("alice".to_string(), b"short".to_vec(), &t.value, false, 1_001);
    assert!(matches!(r, Err(AuthError::BadCredentials(_))));
    assert!(g
        .register("alice".to_string(), b"alicepassword".to_vec(), &t.value, false, 1_002)
        .is_ok());
}

#[test]
fn register_taken_name_releases_token() {
    let mut g = gate(false);
    let t = g.issue_token(&"root".to_string(), 1_000).expect("token");
    let r = g.register("root".to_string(), b"otherpassword".to_vec(), &t.value, false, 1_001);
    assert!(matches!(r, Err(AuthError::UserExists)));
    assert!(!g.list_tokens(&"root".to_string()).expect("list")[0].consumed);
    assert!(g
        .register("carol".to_string(), b"carolpassword".to_vec(), &t.value, false, 1_002)
        .is_ok());
}

#[test]
fn register_with_second_factor_url() {
    let mut g = gate(true);
    let t = g.issue_token(&"root".to_string(), 1_000).expect("token");
    let reg = g
        .register("alice".to_string(), b"alicepassword".to_vec(), &t.value, false, 1_001)
        .expect("registered");
    match reg.provisioning {
        Some(Provisioning::Url(u)) => assert!(u.starts_with("otpauth://totp/alice?")),
        other => panic!("expected a URL, got {other:?}"),
    }
}

#[test]
fn register_with_second_factor_qr() {
    let mut g = gate(true);
    let t = g.issue_token(&"root".to_string(), 1_000).expect("token");
    let reg = g
        .register("alice".to_string(), b"alicepassword".to_vec(), &t.value, true, 1_001)
        .expect("registered");
    assert!(matches!(reg.provisioning, Some(Provisioning::Qr(ref q)) if !q.is_empty()));
}

#[test]
fn login_wrong_second_factor_code() {
    let mut g = gate(true);
    let t = g.issue_token(&"root".to_string(), 1_000).expect("token");
    g.register("alice".to_string(), b"alicepassword".to_vec(), &t.value, false, 1_001)
        .expect("registered");
    let secret = g
        .store
        .find(&"alice".to_string())
        .and_then(|a| a.second_factor_secret.clone())
        .expect("secret");
    let now = 5_000u64;
    let right = code_at(&secret, now);
    let near: Vec<String> = [now - 30, now, now + 30].iter().map(|x| code_at(&secret, *x)).collect();
    let wrong = (0..10)
        .map(|d| format!("{d}{d}{d}{d}{d}{d}"))
        .find(|c| !near.contains(c))
        .expect("a wrong code");
    let r = g.login(&"alice".to_string(), b"alicepassword".to_vec(), Some(wrong), now);
    assert!(matches!(r, Err(AuthError::InvalidCredentials)));
    let r = g.login(&"alice".to_string(), b"alicepassword".to_vec(), None, now);
    assert!(matches!(r, Err(AuthError::InvalidCredentials)));
    let s = g
        .login(&"alice".to_string(), b"alicepassword".to_vec(), Some(right), now)
        .expect("logged in");
    assert_eq!(s.user, "alice");
    assert_eq!(s.login_at, now);
}

#[test]
fn login_unknown_user() {
    let g = gate(true);
    let r = g.login(&"nosuchuser".to_string(), b"anypassword".to_vec(), Some("123456".to_string()), 5);
    assert!(matches!(r, Err(AuthError::InvalidCredentials)));
    let e = r.err().expect("error");
    assert_eq!(e.http_code(), 401);
    assert_eq!(e.name(), "InvalidCredentials");
}

#[test]
fn login_wrong_password_same_error() {
    let g = gate(false);
    let wrong = g.login(&"root".to_string(), b"wrongpassword".to_vec(), None, 5).err().expect("error");
    let unknown = g.login(&"ghost".to_string(), b"wrongpassword".to_vec(), None, 5).err().expect("error");
    assert_eq!(wrong.name(), unknown.name());
    assert_eq!(wrong.http_code(), unknown.http_code());
    assert_eq!(wrong.message(), unknown.message());
}

#[test]
fn login_correct_password() {
    let g = gate(false);
    let s = g.login(&"root".to_string(), b"rootpassword".to_vec(), None, 9).expect("session");
    assert_eq!(s.user, "root");
    assert_eq!(s.last_visit, 9);
}

#[test]
fn login_empty_fields() {
    let g = gate(false);
    assert!(matches!(
        g.login(&String::new(), b"rootpassword".to_vec(), None, 1),
        Err(AuthError::BadCredentials(_))
    ));
    assert!(matches!(
        g.login(&"root".to_string(), Vec::new(), None, 1),
        Err(AuthError::BadCredentials(_))
    ));
}

#[test]
fn delete_own_account() {
    let mut g = gate(false);
    g.add_user("dave".to_string(), b"davepassword".to_vec(), false, 3).expect("dave");
    let mut session = Some(g.login(&"dave".to_string(), b"davepassword".to_vec(), None, 4).expect("session"));
    assert!(g.delete_account(&mut session).is_ok());
    assert!(session.is_none());
    assert!(g.store.find(&"dave".to_string()).is_none());
    assert!(matches!(g.delete_account(&mut session), Err(AuthError::InvalidCredentials)));
    let mut stale = Some(tcloud::session::start("dave".to_string(), 4));
    assert!(matches!(g.delete_account(&mut stale), Err(AuthError::InvalidCredentials)));
    assert!(stale.is_none());
}

#[test]
fn token_admin_rights() {
    let mut g = gate(false);
    g.add_user("erin".to_string(), b"erinpassword".to_vec(), false, 3).expect("erin");
    assert!(matches!(g.issue_token(&"erin".to_string(), 5), Err(AuthError::Forbidden)));
    assert!(matches!(g.list_tokens(&"erin".to_string()), Err(AuthError::Forbidden)));
    let t = g.issue_token(&"root".to_string(), 5).expect("token");
    assert_eq!(t.issued_by, Some("root".to_string()));
    assert!(matches!(g.revoke_token(&"erin".to_string(), &t.value), Err(AuthError::Forbidden)));
    assert!(matches!(g.revoke_token(&"root".to_string(), &t.value), Ok(Ok(()))));
    assert!(g.list_tokens(&"root".to_string()).expect("list").is_empty());
}

#[test]
fn add_user_checks() {
    let mut g = gate(true);
    assert!(matches!(
        g.add_user("root".to_string(), b"rootpassword".to_vec(), false, 1),
        Err(AuthError::UserExists)
    ));
    assert!(matches!(
        g.add_user("x".to_string(), b"xpassword".to_vec(), false, 1),
        Err(AuthError::BadCredentials(_))
    ));
    let secret = g.add_user("frank".to_string(), b"frankpassword".to_vec(), false, 1).expect("frank");
    assert_eq!(secret.map(|s| s.len()), Some(20));
}

#[test]
fn register_with_given_secret() {
    let mut g = gate(true);
    let t = g.issue_token(&"root".to_string(), 1_000).expect("token");
    let secret: Vec<u8> = (1..=20).collect();
    let reg = g
        .register_with("alice".to_string(), b"alicepassword".to_vec(), &t.value, false, 1_001, secret.clone())
        .expect("registered");
    let stored = g
        .store
        .find(&"alice".to_string())
        .and_then(|a| a.second_factor_secret.clone())
        .expect("secret");
    assert_eq!(stored, secret);
    let expected = tcloud::secret::provisioning_url(&secret, &"alice".to_string());
    assert!(matches!(reg.provisioning, Some(Provisioning::Url(ref u)) if *u == expected));
    let now = 9_000u64;
    assert!(g
        .login(&"alice".to_string(), b"alicepassword".to_vec(), Some(code_at(&secret, now - 30)), now)
        .is_ok());
}

#[test]
fn register_boundary_usernames() {
    let mut g = gate(false);
    let a = g.issue_token(&"root".to_string(), 1_000).expect("token");
    let b = g.issue_token(&"root".to_string(), 1_000).expect("token");
    assert!(g.register("abc".to_string(), b"abcpassword".to_vec(), &a.value, false, 1_001).is_ok());
    assert!(g
        .register("abcdefghij".to_string(), b"abcpassword".to_vec(), &b.value, false, 1_001)
        .is_ok());
}

#[test]
fn tokens_listed_by_issuer() {
    let mut g = gate(false);
    g.add_user("admin2".to_string(), b"admin2password".to_vec(), true, 1).expect("admin2");
    let a = g.issue_token(&"root".to_string(), 5).expect("token");
    let b = g.issue_token(&"admin2".to_string(), 6).expect("token");
    let c = g.issue_token(&"root".to_string(), 7).expect("token");
    let mine = g.list_tokens_by(&"admin2".to_string(), &"root".to_string()).expect("list");
    let values: Vec<String> = mine.iter().map(|t| t.value.clone()).collect();
    assert_eq!(values, vec![a.value.clone(), c.value.clone()]);
    let theirs = g.list_tokens_by(&"root".to_string(), &"admin2".to_string()).expect("list");
    assert_eq!(theirs.len(), 1);
    assert_eq!(theirs[0].value, b.value);
    assert!(matches!(
        g.list_tokens_by(&"alice".to_string(), &"root".to_string()),
        Err(AuthError::Forbidden)
    ));
}
