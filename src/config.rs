use vstd::prelude::*;
use vstd::string::*;

verus! {

/// Address and worker settings of the HTTP server.
#[derive(Debug, Clone)]
pub struct Server {
    pub host: String,
    pub port: u16,
    pub workers: usize,
    pub is_behind_proxy: bool,
}

/// Paths of the TLS key and certificate.
#[derive(Debug, Clone)]
pub struct Tls {
    pub privkey_path: String,
    pub cert_path: String,
}

/// Invite-token issuance policy. Its absence disables registration.
#[derive(Debug, Clone, Copy, PartialEq, Eq, Structural)]
pub struct Registration {
    pub token_duration_seconds: u64,
    pub token_size: u8,
}

/// Logging settings.
#[derive(Debug, Clone)]
pub struct Logging {
    pub log_level: String,
}

/// Length bounds, in bytes, of usernames and passwords.
#[derive(Debug, Clone, Copy, PartialEq, Eq, Structural)]
pub struct CredentialSize {
    pub max_username: u8,
    pub min_username: u8,
    pub max_passwd: u16,
    pub min_passwd: u16,
}

/// Cookie lifetime and session deadlines, in minutes. `None` means that the
/// deadline never expires.
#[derive(Debug, Clone, Copy, PartialEq, Eq, Structural)]
pub struct Durations {
    pub cookie_minutes: u32,
    pub login_minutes: Option<u64>,
    pub visit_minutes: Option<u64>,
}

/// Request size limits, in bytes.
#[derive(Debug, Clone, Copy, PartialEq, Eq, Structural)]
pub struct Limits {
    pub file_upload_size: u64,
    pub payload_size: usize,
}

/// The process configuration, built once at startup and passed to every
/// component.
#[derive(Debug, Clone)]
pub struct Config {
    pub server_name: String,
    pub description: String,
    pub url_prefix: String,
    pub server: Server,
    pub logging: Logging,
    pub tls: Option<Tls>,
    pub registration: Option<Registration>,
    pub data_directory: String,
    pub session_secret_key_path: String,
    pub limits: Limits,
    pub duration: Durations,
    pub cred_size: CredentialSize,
}

/// Relies on num_cpus::get: the number of logical cores, at least one.
#[verifier::external_body]
fn logical_cpus() -> (r: usize)
    ensures
        r >= 1,
{
    num_cpus::get()
}

/// `dir` followed by `/` and `file`.
pub open spec fn path_in(dir: Seq<char>, file: Seq<char>) -> Seq<char> {
    dir + "/"@ + file
}

fn join_path(dir: &str, file: &str) -> (r: String)
    ensures
        r@ == path_in(dir@, file@),
{
    String::from_str(dir).concat("/").concat(file)
}

impl Config {
    /// The default configuration, with its files placed in `exec_dir` (the
    /// directory of the running executable) and one worker per logical core.
    pub fn default(description: &str, exec_dir: &str) -> (r: Config)
        ensures
            r.description@ == description@,
            r.server_name@ == "Tiny Cloud"@,
            r.url_prefix@ == "tcloud"@,
            r.server.host@ == "127.0.0.1"@,
            r.server.port == 80,
            r.server.workers >= 1,
            !r.server.is_behind_proxy,
            r.logging.log_level@ == "warn"@,
            r.tls matches Some(t) && t.privkey_path@ == path_in(exec_dir@, "privkey.pem"@)
                && t.cert_path@ == path_in(exec_dir@, "cert.pem"@),
            r.registration == Some(
                Registration { token_size: 16, token_duration_seconds: 86400 },
            ),
            r.data_directory@ == path_in(exec_dir@, "data"@),
            r.limits == (Limits { file_upload_size: 5_000_000_000, payload_size: 4096 }),
            r.duration == (Durations {
                cookie_minutes: 43200,
                login_minutes: Some(43200),
                visit_minutes: Some(21600),
            }),
            r.session_secret_key_path@ == path_in(exec_dir@, "secret.key"@),
            r.cred_size == (CredentialSize {
                max_username: 10,
                min_username: 3,
                max_passwd: 256,
                min_passwd: 9,
            }),
    {
        Config {
            description: String::from_str(description),
            server_name: String::from_str("Tiny Cloud"),
            url_prefix: String::from_str("tcloud"),
            server: Server {
                host: String::from_str("127.0.0.1"),
                port: 80,
                workers: logical_cpus(),
                is_behind_proxy: false,
            },
            logging: Logging { log_level: String::from_str("warn") },
            tls: Some(
                Tls {
                    privkey_path: join_path(exec_dir, "privkey.pem"),
                    cert_path: join_path(exec_dir, "cert.pem"),
                },
            ),
            registration: Some(Registration { token_size: 16, token_duration_seconds: 86400 }),
            data_directory: join_path(exec_dir, "data"),
            session_secret_key_path: join_path(exec_dir, "secret.key"),
            limits: Limits { file_upload_size: 5_000_000_000, payload_size: 4096 },
            duration: Durations {
                cookie_minutes: 43200,
                login_minutes: Some(43200),
                visit_minutes: Some(21600),
            },
            cred_size: CredentialSize {
                max_username: 10,
                min_username: 3,
                max_passwd: 256,
                min_passwd: 9,
            },
        }
    }
}

} // verus!
