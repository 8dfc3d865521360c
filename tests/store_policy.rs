use tcloud::config::CredentialSize;
use tcloud::error::{AuthError, DBError};
use tcloud::policy::check_credentials;
use tcloud::store::{Account, CredentialStore};

fn sizes() -> CredentialSize {
    CredentialSize { max_username: 10, min_username: 3, max_passwd: 256, min_passwd: 9 }
}

fn account(name: &str, hash: &str) -> Account {
    Account {
        username: name.to_string(),
        password_hash: hash.to_string(),
        second_factor_secret: None,
        is_admin: false,
        created_at: 7,
    }
}

#[test]
fn username_length_bounds() {
    let pw = b"password1".to_vec();
    assert!(check_credentials(&sizes(), &"abc".to_string(), &pw).is_ok());
    assert!(check_credentials(&sizes(), &"abcdefghij".to_string(), &pw).is_ok());
    assert!(matches!(
        check_credentials(&sizes(), &"ab".to_string(), &pw),
        Err(AuthError::BadCredentials(_))
    ));
    assert!(matches!(
        check_credentials(&sizes(), &"abcdefghijk".to_string(), &pw),
        Err(AuthError::BadCredentials(_))
    ));
}

#[test]
fn password_length_bounds() {
    let user = "alice".to_string();
    assert!(check_credentials(&sizes(), &user, &vec![b'x'; 9]).is_ok());
    assert!(check_credentials(&sizes(), &user, &vec![b'x'; 256]).is_ok());
    assert!(matches!(
        check_credentials(&sizes(), &user, &vec![b'x'; 8]),
        Err(AuthError::BadCredentials(_))
    ));
    assert!(matches!(
        check_credentials(&sizes(), &user, &vec![b'x'; 257]),
        Err(AuthError::BadCredentials(_))
    ));
}

#[test]
fn username_length_counts_bytes() {
    // "ééé" is three characters but six bytes.
    let pw = b"password1".to_vec();
    assert!(check_credentials(&sizes(), &"éé".to_string(), &pw).is_ok());
    assert!(check_credentials(&sizes(), &"ééééé".to_string(), &pw).is_ok());
    assert!(check_credentials(&sizes(), &"éééééé".to_string(), &pw).is_err());
}

#[test]
fn store_create_find_delete() {
    let mut s = CredentialStore::new();
    assert_eq!(s.len(), 0);
    assert!(s.create(account("alice", "h1")).is_ok());
    assert!(s.create(account("bob", "h2")).is_ok());
    assert_eq!(s.len(), 2);
    assert_eq!(s.find(&"bob".to_string()).expect("bob").password_hash, "h2");
    assert!(s.find(&"carol".to_string()).is_none());
    assert!(s.delete(&"alice".to_string()).is_ok());
    assert!(s.find(&"alice".to_string()).is_none());
    assert!(matches!(s.delete(&"alice".to_string()), Err(DBError::NotFound)));
    assert_eq!(s.len(), 1);
}

#[test]
fn duplicate_create_keeps_first_record() {
    let mut s = CredentialStore::new();
    assert!(s.create(account("alice", "first")).is_ok());
    assert!(matches!(s.create(account("alice", "second")), Err(DBError::UserExists)));
    assert_eq!(s.len(), 1);
    assert_eq!(s.find(&"alice".to_string()).expect("alice").password_hash, "first");
}

#[test]
fn usernames_are_case_sensitive() {
    let mut s = CredentialStore::new();
    assert!(s.create(account("alice", "a")).is_ok());
    assert!(s.create(account("Alice", "b")).is_ok());
    assert_eq!(s.len(), 2);
}
