use tcloud::config::Config;
use tcloud::error::{AuthError, PluginError};

#[test]
fn auth_error_codes() {
    assert_eq!(AuthError::InternalError("disk".to_string()).http_code(), 500);
    assert_eq!(AuthError::BadCredentials("short".to_string()).http_code(), 400);
    assert_eq!(AuthError::InvalidCredentials.http_code(), 401);
    assert_eq!(AuthError::InvalidRegCredentials("used".to_string()).http_code(), 401);
    assert_eq!(AuthError::RegistrationDisabled.http_code(), 404);
    assert_eq!(AuthError::UserExists.http_code(), 409);
    assert_eq!(AuthError::Forbidden.http_code(), 403);
}

#[test]
fn auth_error_names() {
    assert_eq!(AuthError::InternalError("x".to_string()).name(), "InternalError");
    assert_eq!(AuthError::BadCredentials("x".to_string()).name(), "BadCredentials");
    assert_eq!(AuthError::InvalidCredentials.name(), "InvalidCredentials");
    assert_eq!(AuthError::InvalidRegCredentials("x".to_string()).name(), "InvalidRegCredentials");
    assert_eq!(AuthError::RegistrationDisabled.name(), "RegistrationDisabled");
    assert_eq!(AuthError::UserExists.name(), "UserExists");
    assert_eq!(AuthError::Forbidden.name(), "Forbidden");
}

#[test]
fn auth_error_messages_hide_detail() {
    assert_eq!(
        AuthError::InternalError("sqlite: disk I/O error".to_string()).message(),
        "An internal server error occurred"
    );
    assert_eq!(
        AuthError::BadCredentials("username length is out of bounds".to_string()).message(),
        "Bad credentials were given: username length is out of bounds"
    );
    assert_eq!(
        AuthError::InvalidRegCredentials("expired".to_string()).message(),
        "Invalid registration credentials"
    );
    assert_eq!(AuthError::InvalidCredentials.message(), "Invalid credentials");
}

#[test]
fn plugin_error_fields() {
    let e = PluginError::InternalError("boom".to_string());
    assert_eq!(e.error(), "PluginError");
    assert_eq!(e.err_type(), "InternalError");
    assert_eq!(e.msg(), "An internal server error occurred.");
    assert_eq!(e.http_code(), 500);
}

#[test]
fn default_config_values() {
    let c = Config::default("A tiny cloud", "/opt/tc");
    assert_eq!(c.description, "A tiny cloud");
    assert_eq!(c.server_name, "Tiny Cloud");
    assert_eq!(c.url_prefix, "tcloud");
    assert_eq!(c.server.host, "127.0.0.1");
    assert_eq!(c.server.port, 80);
    assert!(c.server.workers >= 1);
    assert!(!c.server.is_behind_proxy);
    let tls = c.tls.expect("tls paths");
    assert_eq!(tls.privkey_path, "/opt/tc/privkey.pem");
    assert_eq!(tls.cert_path, "/opt/tc/cert.pem");
    let reg = c.registration.expect("registration policy");
    assert_eq!(reg.token_size, 16);
    assert_eq!(reg.token_duration_seconds, 24 * 60 * 60);
    assert_eq!(c.data_directory, "/opt/tc/data");
    assert_eq!(c.session_secret_key_path, "/opt/tc/secret.key");
    assert_eq!(c.limits.file_upload_size, 5_000_000_000);
    assert_eq!(c.limits.payload_size, 4096);
    assert_eq!(c.duration.cookie_minutes, 43200);
    assert_eq!(c.duration.login_minutes, Some(43200));
    assert_eq!(c.duration.visit_minutes, Some(21600));
    assert_eq!(c.cred_size.min_username, 3);
    assert_eq!(c.cred_size.max_username, 10);
    assert_eq!(c.cred_size.min_passwd, 9);
    assert_eq!(c.cred_size.max_passwd, 256);
}
