use vstd::prelude::*;
use vstd::string::*;

verus! {

/// Failures of the durable store layer.
#[derive(Debug, Clone)]
pub enum DBError {
    IOError(String),
    ExecError(String),
    UserExists,
    NotEnabled(String),
    TimeFailure(String),
    NotFound,
}

/// Errors surfaced by the account operations. Each kind collapses the causes
/// that must not be told apart by a client.
#[derive(Debug, Clone)]
pub enum AuthError {
    /// Storage or derivation failure; its detail never reaches the client.
    InternalError(String),
    /// Malformed or out-of-policy input.
    BadCredentials(String),
    /// Wrong password, wrong code or unknown user.
    InvalidCredentials,
    /// Token not found, expired or already consumed.
    InvalidRegCredentials(String),
    /// No issuance policy is configured.
    RegistrationDisabled,
    /// The username is already taken.
    UserExists,
    /// The caller lacks the rights for the operation.
    Forbidden,
}

pub open spec fn auth_error_name(e: AuthError) -> Seq<char> {
    match e {
        AuthError::InternalError(_) => "InternalError"@,
        AuthError::BadCredentials(_) => "BadCredentials"@,
        AuthError::InvalidCredentials => "InvalidCredentials"@,
        AuthError::InvalidRegCredentials(_) => "InvalidRegCredentials"@,
        AuthError::RegistrationDisabled => "RegistrationDisabled"@,
        AuthError::UserExists => "UserExists"@,
        AuthError::Forbidden => "Forbidden"@,
    }
}

pub open spec fn auth_error_code(e: AuthError) -> u16 {
    match e {
        AuthError::InternalError(_) => 500,
        AuthError::BadCredentials(_) => 400,
        AuthError::InvalidCredentials => 401,
        AuthError::InvalidRegCredentials(_) => 401,
        AuthError::RegistrationDisabled => 404,
        AuthError::UserExists => 409,
        AuthError::Forbidden => 403,
    }
}

/// The message shown to a client. Internal detail and the cause of a
/// credential or token failure are left out.
pub open spec fn auth_error_message(e: AuthError) -> Seq<char> {
    match e {
        AuthError::InternalError(_) => "An internal server error occurred"@,
        AuthError::BadCredentials(m) => "Bad credentials were given: "@ + m@,
        AuthError::InvalidCredentials => "Invalid credentials"@,
        AuthError::InvalidRegCredentials(_) => "Invalid registration credentials"@,
        AuthError::RegistrationDisabled => "Not found"@,
        AuthError::UserExists => "User already exists"@,
        AuthError::Forbidden => "Forbidden"@,
    }
}

impl AuthError {
    /// The kind's name, as sent to clients in the `error` field.
    pub fn name(&self) -> (r: String)
        ensures
            r@ == auth_error_name(*self),
    {
        match self {
            AuthError::InternalError(_) => String::from_str("InternalError"),
            AuthError::BadCredentials(_) => String::from_str("BadCredentials"),
            AuthError::InvalidCredentials => String::from_str("InvalidCredentials"),
            AuthError::InvalidRegCredentials(_) => String::from_str("InvalidRegCredentials"),
            AuthError::RegistrationDisabled => String::from_str("RegistrationDisabled"),
            AuthError::UserExists => String::from_str("UserExists"),
            AuthError::Forbidden => String::from_str("Forbidden"),
        }
    }

    /// The HTTP status that the kind is reported with.
    pub fn http_code(&self) -> (r: u16)
        ensures
            r == auth_error_code(*self),
    {
        match self {
            AuthError::InternalError(_) => 500,
            AuthError::BadCredentials(_) => 400,
            AuthError::InvalidCredentials => 401,
            AuthError::InvalidRegCredentials(_) => 401,
            AuthError::RegistrationDisabled => 404,
            AuthError::UserExists => 409,
            AuthError::Forbidden => 403,
        }
    }

    /// The message sent to clients in the `msg` field.
    pub fn message(&self) -> (r: String)
        ensures
            r@ == auth_error_message(*self),
    {
        match self {
            AuthError::InternalError(_) => String::from_str("An internal server error occurred"),
            AuthError::BadCredentials(m) => String::from_str(
                "Bad credentials were given: ",
            ).concat(m.as_str()),
            AuthError::InvalidCredentials => String::from_str("Invalid credentials"),
            AuthError::InvalidRegCredentials(_) => String::from_str(
                "Invalid registration credentials",
            ),
            AuthError::RegistrationDisabled => String::from_str("Not found"),
            AuthError::UserExists => String::from_str("User already exists"),
            AuthError::Forbidden => String::from_str("Forbidden"),
        }
    }
}

/// Errors raised while serving a plugin request.
#[derive(Debug, Clone)]
pub enum PluginError {
    InternalError(String),
}

impl PluginError {
    /// The error family, as sent to clients.
    pub fn error(&self) -> (r: String)
        ensures
            r@ == "PluginError"@,
    {
        String::from_str("PluginError")
    }

    /// The variant's name.
    pub fn err_type(&self) -> (r: String)
        ensures
            r@ == "InternalError"@,
    {
        match self {
            PluginError::InternalError(_) => String::from_str("InternalError"),
        }
    }

    /// The message sent to clients; the internal detail is left out.
    pub fn msg(&self) -> (r: String)
        ensures
            r@ == "An internal server error occurred."@,
    {
        String::from_str("An internal server error occurred.")
    }

    /// The HTTP status of the error.
    pub fn http_code(&self) -> (r: u16)
        ensures
            r == 500,
    {
        match self {
            PluginError::InternalError(_) => 500,
        }
    }
}

} // verus!
