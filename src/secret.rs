use vstd::prelude::*;
use vstd::utf8::encode_utf8;

use crate::error::AuthError;

verus! {

/// Whether `hash` is a well-formed PHC hash string that `password` verifies
/// against under Argon2.
pub uninterp spec fn password_verifies(password: Seq<u8>, hash: Seq<char>) -> bool;

/// The second-factor code of `secret` for the time `time` (seconds since the
/// epoch): HMAC-SHA1 of the step counter `time / step`, `digits` digits.
pub uninterp spec fn totp_code(secret: Seq<u8>, digits: usize, step: u64, time: u64) -> Seq<u8>;

/// The `otpauth://` provisioning URL of `secret` for the account `account`.
pub uninterp spec fn totp_url(secret: Seq<u8>, digits: usize, step: u64, account: Seq<char>) -> Seq<char>;

/// The base64 PNG image of the QR code of the provisioning URL.
pub uninterp spec fn totp_qr(secret: Seq<u8>, digits: usize, step: u64, account: Seq<char>) -> Seq<char>;

/// Whether the QR code of the provisioning URL can be drawn as base64 PNG.
pub uninterp spec fn totp_qr_drawn(secret: Seq<u8>, digits: usize, step: u64, account: Seq<char>) -> bool;

/// The PNG image of the QR code of the provisioning URL.
pub uninterp spec fn totp_png(secret: Seq<u8>, digits: usize, step: u64, account: Seq<char>) -> Seq<u8>;

/// Whether the QR code of the provisioning URL can be drawn as PNG.
pub uninterp spec fn totp_png_drawn(secret: Seq<u8>, digits: usize, step: u64, account: Seq<char>) -> bool;

/// Length of a second-factor time step, in seconds.
pub const STEP_SECONDS: u64 = 30;

/// Number of digits of a second-factor code.
pub const CODE_DIGITS: usize = 6;

/// Longest password that Argon2 accepts, in bytes.
pub const MAX_PASSWORD_BYTES: usize = 0xFFFF_FFFF;

/// Length of a freshly provisioned second-factor secret, in bytes.
pub const SECRET_BYTES: usize = 20;

/// A code of `digits` ASCII digits.
pub open spec fn digits_shape(code: Seq<u8>, digits: usize) -> bool {
    code.len() == digits && forall|i: int| 0 <= i < code.len() ==> 48 <= #[trigger] code[i] <= 57
}

/// A code is six ASCII digits.
pub open spec fn code_shape(code: Seq<u8>) -> bool {
    digits_shape(code, CODE_DIGITS)
}

/// The code of `secret` for `time`, under this library's parameters.
pub open spec fn code_at(secret: Seq<u8>, time: u64) -> Seq<u8> {
    totp_code(secret, CODE_DIGITS, STEP_SECONDS, time)
}

/// The first second of the step `d` steps away from the one holding `now`.
pub open spec fn step_time(now: u64, d: int) -> int {
    (now / STEP_SECONDS + d) * STEP_SECONDS
}

/// Whether `d` names a step of the tolerance window around `now` that has a
/// representable time.
pub open spec fn window_step(now: u64, d: int) -> bool {
    -1 <= d <= 1 && 0 <= step_time(now, d) <= u64::MAX
}

/// Whether `code` is accepted for `secret` at `now`: it equals the code of
/// the current step or of one of the two adjacent steps.
pub open spec fn code_accepted(secret: Seq<u8>, code: Seq<u8>, now: u64) -> bool {
    exists|d: int| window_step(now, d) && code == code_at(secret, #[trigger] step_time(now, d) as u64)
}

/// Relies on argon2's `PasswordHasher::hash_password` with the default
/// Argon2id parameters and a fresh random salt from the operating system:
/// the PHC string it returns verifies against the same password. The salt
/// is always 16 valid bytes, so the only failure is a password longer than
/// `u32::MAX` bytes.
#[verifier::external_body]
fn argon2_hash(password: &Vec<u8>) -> (r: Option<String>)
    ensures
        r matches Some(h) ==> password_verifies(password@, h@),
        password@.len() <= MAX_PASSWORD_BYTES ==> r is Some,
{
    let salt = argon2::password_hash::SaltString::generate(&mut rand::rngs::OsRng);
    argon2::PasswordHasher::hash_password(&argon2::Argon2::default(), password, &salt)
        .ok()
        .map(|h| h.to_string())
}

/// Relies on argon2's `PasswordHash::new` and `PasswordVerifier::verify_password`:
/// whether `hash` parses and `password` verifies against it.
#[verifier::external_body]
fn argon2_verify(password: &Vec<u8>, hash: &String) -> (r: bool)
    ensures
        r == password_verifies(password@, hash@),
{
    match argon2::PasswordHash::new(hash) {
        Ok(parsed) => argon2::PasswordVerifier::verify_password(
            &argon2::Argon2::default(),
            password,
            &parsed,
        ).is_ok(),
        Err(_) => false,
    }
}

/// Relies on totp-rs's `TOTP::generate` with SHA-1 and a skew of one step:
/// the code is the zero-padded decimal rendering of a number below
/// 10^`digits`. A zero `step` would divide by zero and more than nine digits
/// would overflow, so both are excluded.
#[verifier::external_body]
fn totp_generate(secret: &Vec<u8>, digits: usize, step: u64, time: u64) -> (r: Vec<u8>)
    requires
        1 <= digits <= 9,
        step > 0,
    ensures
        r@ == totp_code(secret@, digits, step, time),
        digits_shape(r@, digits),
{
    let totp = totp_rs::TOTP::new_unchecked(
        totp_rs::Algorithm::SHA1,
        digits,
        1,
        step,
        secret.clone(),
        None,
        String::new(),
    );
    totp.generate(time).into_bytes()
}

/// Relies on totp-rs's `Secret::generate_secret`: twenty bytes from a
/// cryptographic generator, in raw form.
#[verifier::external_body]
fn totp_secret() -> (r: Vec<u8>)
    ensures
        r@.len() == SECRET_BYTES,
{
    totp_rs::Secret::generate_secret().to_bytes().unwrap_or_default()
}

/// Relies on totp-rs's `TOTP::get_url` (SHA-1): the provisioning URL of
/// `secret`.
#[verifier::external_body]
fn totp_get_url(secret: &Vec<u8>, digits: usize, step: u64, account: &String) -> (r: String)
    ensures
        r@ == totp_url(secret@, digits, step, account@),
{
    totp_rs::TOTP::new_unchecked(
        totp_rs::Algorithm::SHA1,
        digits,
        1,
        step,
        secret.clone(),
        None,
        account.clone(),
    ).get_url()
}

/// Relies on totp-rs's `TOTP::get_qr_base64` (SHA-1): the QR image of the
/// provisioning URL; whether it can be drawn depends on the URL alone.
#[verifier::external_body]
fn totp_get_qr(secret: &Vec<u8>, digits: usize, step: u64, account: &String) -> (r: Option<String>)
    ensures
        r is Some <==> totp_qr_drawn(secret@, digits, step, account@),
        r matches Some(q) ==> q@ == totp_qr(secret@, digits, step, account@),
{
    totp_rs::TOTP::new_unchecked(
        totp_rs::Algorithm::SHA1,
        digits,
        1,
        step,
        secret.clone(),
        None,
        account.clone(),
    ).get_qr_base64().ok()
}

/// Relies on totp-rs's `TOTP::get_qr_png` (SHA-1): the QR image of the
/// provisioning URL as PNG bytes; whether it can be drawn depends on the URL
/// alone.
#[verifier::external_body]
fn totp_get_png(secret: &Vec<u8>, digits: usize, step: u64, account: &String) -> (r: Option<Vec<u8>>)
    ensures
        r is Some <==> totp_png_drawn(secret@, digits, step, account@),
        r matches Some(p) ==> p@ == totp_png(secret@, digits, step, account@),
{
    totp_rs::TOTP::new_unchecked(
        totp_rs::Algorithm::SHA1,
        digits,
        1,
        step,
        secret.clone(),
        None,
        account.clone(),
    ).get_qr_png().ok()
}

/// Relies on zeroize's `Zeroize` for `Vec<u8>`: overwrites the contents and
/// spare capacity with zeros, then clears the vector.
#[verifier::external_body]
pub(crate) fn wipe(buf: &mut Vec<u8>)
    ensures
        final(buf)@.len() == 0,
{
    zeroize::Zeroize::zeroize(buf)
}

/// Turns `password` into a self-contained salted hash.
pub fn hash(password: &Vec<u8>) -> (r: Result<String, AuthError>)
    ensures
        r matches Ok(h) ==> password_verifies(password@, h@),
        password@.len() <= MAX_PASSWORD_BYTES ==> r is Ok,
        r is Err ==> r->Err_0 is InternalError,
{
    match argon2_hash(password) {
        Some(h) => Ok(h),
        None => Err(AuthError::InternalError(String::from_str("failed to hash the password"))),
    }
}

/// Whether `password` matches `hash`.
pub fn verify(password: &Vec<u8>, hash: &String) -> (r: bool)
    ensures
        r == password_verifies(password@, hash@),
{
    argon2_verify(password, hash)
}

/// Whether `a` and `b` hold the same bytes. Every byte is compared, whatever
/// the first difference.
fn same_bytes(a: &[u8], b: &Vec<u8>) -> (r: bool)
    ensures
        r == (a@ == b@),
{
    if a.len() != b.len() {
        return false;
    }
    let mut differing: usize = 0;
    let mut i: usize = 0;
    assert(a@.subrange(0, 0) =~= b@.subrange(0, 0));
    while i < a.len()
        invariant
            a@.len() == b@.len(),
            i <= a@.len(),
            differing <= i,
            (differing == 0) == (a@.subrange(0, i as int) == b@.subrange(0, i as int)),
        decreases a@.len() - i,
    {
        proof {
            assert(a@.subrange(0, i + 1) =~= a@.subrange(0, i as int).push(a@[i as int]));
            assert(b@.subrange(0, i + 1) =~= b@.subrange(0, i as int).push(b@[i as int]));
            if a@.subrange(0, i + 1) == b@.subrange(0, i + 1) {
                assert(a@.subrange(0, i + 1)[i as int] == b@.subrange(0, i + 1)[i as int]);
                assert(a@.subrange(0, i as int) =~= a@.subrange(0, i + 1).subrange(0, i as int));
                assert(b@.subrange(0, i as int) =~= b@.subrange(0, i + 1).subrange(0, i as int));
            }
        }
        let step: usize = if a[i] == b[i] { 0 } else { 1 };
        differing = differing + step;
        i = i + 1;
    }
    proof {
        assert(a@.subrange(0, a@.len() as int) =~= a@);
        assert(b@.subrange(0, b@.len() as int) =~= b@);
    }
    differing == 0
}

fn has_code_shape(code: &[u8]) -> (r: bool)
    ensures
        r == code_shape(code@),
{
    if code.len() != CODE_DIGITS {
        return false;
    }
    let mut ok = true;
    let mut i: usize = 0;
    while i < code.len()
        invariant
            i <= code@.len(),
            ok == forall|k: int| 0 <= k < i ==> 48 <= #[trigger] code@[k] <= 57,
        decreases code@.len() - i,
    {
        let digit = 48 <= code[i] && code[i] <= 57;
        ok = ok && digit;
        i = i + 1;
    }
    ok
}

/// Checks `code` against the codes of `secret` for the step holding `now`
/// and the steps just before and after it. A malformed code is rejected like
/// a wrong one, and all three steps are always compared.
pub fn verify_code(secret: &Vec<u8>, code: &String, now: u64) -> (r: bool)
    ensures
        r == code_accepted(secret@, encode_utf8(code@), now),
        !code_shape(encode_utf8(code@)) ==> !r,
{
    let bytes = code.as_str().as_bytes();
    let shaped = has_code_shape(bytes);
    let base = now / STEP_SECONDS;
    let mut found = false;
    let mut k: u64 = 0;
    while k < 3
        invariant
            k <= 3,
            base == now / STEP_SECONDS,
            bytes@ == encode_utf8(code@),
            shaped == code_shape(bytes@),
            found ==> code_shape(bytes@),
            found == exists|d: int|
                -1 <= d < k - 1 && window_step(now, d) && bytes@ == code_at(
                    secret@,
                    #[trigger] step_time(now, d) as u64,
                ),
        decreases 3 - k,
    {
        let ghost d: int = k - 1;
        if base + k >= 1 && (base + k - 1) <= u64::MAX / STEP_SECONDS {
            let t = (base + k - 1) * STEP_SECONDS;
            assert(t == step_time(now, d));
            let expected = totp_generate(secret, CODE_DIGITS, STEP_SECONDS, t);
            let hit = same_bytes(bytes, &expected);
            if hit {
                assert(window_step(now, d));
            }
            found = found || hit;
        } else {
            assert(!window_step(now, d));
        }
        k = k + 1;
    }
    shaped && found
}

/// A fresh second-factor secret.
pub fn provision() -> (r: Vec<u8>)
    ensures
        r@.len() == SECRET_BYTES,
{
    totp_secret()
}

/// The provisioning URL of `secret` for `account`.
pub fn provisioning_url(secret: &Vec<u8>, account: &String) -> (r: String)
    ensures
        r@ == totp_url(secret@, CODE_DIGITS, STEP_SECONDS, account@),
{
    totp_get_url(secret, CODE_DIGITS, STEP_SECONDS, account)
}

/// The provisioning QR image of `secret` for `account`.
pub fn provisioning_qr(secret: &Vec<u8>, account: &String) -> (r: Result<String, AuthError>)
    ensures
        r is Ok <==> totp_qr_drawn(secret@, CODE_DIGITS, STEP_SECONDS, account@),
        r matches Ok(q) ==> q@ == totp_qr(secret@, CODE_DIGITS, STEP_SECONDS, account@),
        r is Err ==> r->Err_0 is InternalError,
{
    match totp_get_qr(secret, CODE_DIGITS, STEP_SECONDS, account) {
        Some(q) => Ok(q),
        None => Err(AuthError::InternalError(String::from_str("failed to draw the QR code"))),
    }
}

/// The provisioning QR image of `secret` for `account`, as PNG bytes.
pub fn provisioning_png(secret: &Vec<u8>, account: &String) -> (r: Result<Vec<u8>, AuthError>)
    ensures
        r is Ok <==> totp_png_drawn(secret@, CODE_DIGITS, STEP_SECONDS, account@),
        r matches Ok(p) ==> p@ == totp_png(secret@, CODE_DIGITS, STEP_SECONDS, account@),
        r is Err ==> r->Err_0 is InternalError,
{
    match totp_get_png(secret, CODE_DIGITS, STEP_SECONDS, account) {
        Some(p) => Ok(p),
        None => Err(AuthError::InternalError(String::from_str("failed to draw the QR code"))),
    }
}

/// The code of the current step and of the two adjacent steps is accepted;
/// any code that differs from those three is not.
pub proof fn lemma_code_window(secret: Seq<u8>, code: Seq<u8>, now: u64)
    ensures
        forall|d: int|
            window_step(now, d) && code == code_at(secret, #[trigger] step_time(now, d) as u64)
                ==> code_accepted(secret, code, now),
        (forall|d: int|
            window_step(now, d) ==> code != code_at(secret, #[trigger] step_time(now, d) as u64))
            ==> !code_accepted(secret, code, now),
{
}

} // verus!
