use vstd::prelude::*;
use vstd::string::*;
use vstd::utf8::encode_utf8;

use crate::config::CredentialSize;
use crate::error::AuthError;

verus! {

/// Length in bytes of the UTF-8 encoding of `s`, as `str::len` reports it.
pub open spec fn byte_len(s: Seq<char>) -> usize {
    encode_utf8(s).len() as usize
}

pub open spec fn username_fits(cs: CredentialSize, user: Seq<char>) -> bool {
    cs.min_username <= byte_len(user) <= cs.max_username
}

pub open spec fn password_fits(cs: CredentialSize, password: Seq<u8>) -> bool {
    cs.min_passwd <= password.len() <= cs.max_passwd
}

/// Whether both credentials lie within the configured bounds.
pub open spec fn credentials_fit(cs: CredentialSize, user: Seq<char>, password: Seq<u8>) -> bool {
    username_fits(cs, user) && password_fits(cs, password)
}

/// Checks the username and password lengths against the configured bounds,
/// before anything is hashed or stored.
pub fn check_credentials(cs: &CredentialSize, user: &String, password: &Vec<u8>) -> (r: Result<
    (),
    AuthError,
>)
    ensures
        r is Ok <==> credentials_fit(*cs, user@, password@),
        r is Err ==> r->Err_0 is BadCredentials,
{
    let ulen = user.as_str().len();
    if ulen < cs.min_username as usize || ulen > cs.max_username as usize {
        return Err(AuthError::BadCredentials(String::from_str("username length is out of bounds")));
    }
    let plen = password.len();
    if plen < cs.min_passwd as usize || plen > cs.max_passwd as usize {
        return Err(AuthError::BadCredentials(String::from_str("password length is out of bounds")));
    }
    Ok(())
}

/// A username exactly at either configured bound is accepted; one byte
/// shorter than the minimum or longer than the maximum is rejected.
pub proof fn lemma_username_bounds(cs: CredentialSize, user: Seq<char>)
    ensures
        byte_len(user) == cs.min_username && cs.min_username <= cs.max_username ==> username_fits(
            cs,
            user,
        ),
        byte_len(user) == cs.max_username && cs.min_username <= cs.max_username ==> username_fits(
            cs,
            user,
        ),
        byte_len(user) + 1 == cs.min_username ==> !username_fits(cs, user),
        byte_len(user) == cs.max_username + 1 ==> !username_fits(cs, user),
{
}

} // verus!
