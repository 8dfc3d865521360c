use tcloud::secret::{hash, provision, provisioning_png, provisioning_qr, provisioning_url, verify, verify_code};

fn code_at(secret: &[u8], time: u64) -> String {
    totp_rs::TOTP::new_unchecked(
        totp_rs::Algorithm::SHA1,
        6,
        1,
        30,
        secret.to_vec(),
        None,
        String::new(),
    )
    .generate(time)
}

#[test]
fn hash_then_verify() {
    let pw = b"correct horse".to_vec();
    let h = hash(&pw).expect("hashed");
    assert!(h.starts_with("$argon2id$"));
    assert!(verify(&pw, &h));
    assert!(!verify(&b"correct horsf".to_vec(), &h));
}

#[test]
fn hashes_are_salted() {
    let pw = b"same password".to_vec();
    let a = hash(&pw).expect("hashed");
    let b = hash(&pw).expect("hashed");
    assert_ne!(a, b);
    assert!(verify(&pw, &a) && verify(&pw, &b));
}

#[test]
fn verify_rejects_garbage_hash() {
    assert!(!verify(&b"whatever1".to_vec(), &"not a hash".to_string()));
}

#[test]
fn code_window() {
    let secret: Vec<u8> = (1..=20).collect();
    let now = 1_700_000_015u64;
    for t in [now - 30, now, now + 30] {
        assert!(verify_code(&secret, &code_at(&secret, t), now));
    }
    for t in [now - 90, now + 90] {
        let c = code_at(&secret, t);
        let near: Vec<String> = [now - 30, now, now + 30].iter().map(|x| code_at(&secret, *x)).collect();
        if !near.contains(&c) {
            assert!(!verify_code(&secret, &c, now));
        }
    }
}

#[test]
fn malformed_codes_rejected() {
    let secret: Vec<u8> = (1..=20).collect();
    let now = 1_700_000_015u64;
    let good = code_at(&secret, now);
    assert!(!verify_code(&secret, &format!("{good}0"), now));
    assert!(!verify_code(&secret, &good[..5].to_string(), now));
    assert!(!verify_code(&secret, &"12a456".to_string(), now));
    assert!(!verify_code(&secret, &String::new(), now));
}

#[test]
fn code_near_epoch() {
    let secret: Vec<u8> = (1..=20).collect();
    assert!(verify_code(&secret, &code_at(&secret, 0), 10));
    assert!(verify_code(&secret, &code_at(&secret, 30), 10));
}

#[test]
fn provisioning_outputs() {
    let s = provision();
    assert_eq!(s.len(), 20);
    let url = provisioning_url(&s, &"alice".to_string());
    assert!(url.starts_with("otpauth://totp/alice?secret="));
    let qr = provisioning_qr(&s, &"alice".to_string()).expect("qr");
    assert!(!qr.is_empty());
    assert_ne!(qr, "alice");
}

#[test]
fn provisioning_png_is_png() {
    let s = provision();
    let png = provisioning_png(&s, &"alice".to_string()).expect("png");
    assert_eq!(&png[..8], &[0x89, b'P', b'N', b'G', 0x0d, 0x0a, 0x1a, 0x0a]);
}
