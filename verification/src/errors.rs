//! Error taxonomy of the service: validation, authentication, business and
//! infrastructure failures, each with the numeric code the transport reports.

use vstd::prelude::*;

verus! {

/// Everything a core operation can fail with.  Business and validation
/// errors tell the client which precondition failed; `DatabaseException`
/// and `Internal` stay generic on purpose.
#[derive(Debug, Clone)]
pub enum Error {
    /// No credential accompanied the request.
    UserNotLogin,
    /// The password hash did not match the stored one.
    UserPasswdError,
    /// No user is registered under the given email.
    UserNotExists,
    /// The named product code is unknown.
    ProductNotExists,
    /// The user holds no membership for the product and provisioning was not requested.
    ProductNotOpen,
    /// The captcha answer did not match.
    Captcha,
    /// The emailed verification code did not match.
    EmailVerifyCode,
    /// The email differs from the one the code was sent to.
    EmailDiff,
    /// Outbound email dispatch failed.
    SendEmail,
    /// A resend was attempted before the minimum interval elapsed.
    Frequent,
    /// The email is already registered.
    UserExists(String),
    /// The password does not meet the minimum length.
    UserPasswordTooShort,
    /// The bearer token is unknown or expired.
    TokenInvalid,
    /// A request field is missing or malformed.
    Parse(String),
    /// The email address is not well formed.
    ParseEmail,
    /// The storage layer failed; carries the underlying cause.
    DatabaseException(String),
    /// An unexpected internal failure.
    Internal(String),
    /// Any other error, as free text.
    Custom(String),
}

pub const E_SUCCESS: usize = 0;

pub const E_USER_NOT_LOGIN: usize = 300;
pub const E_PARSE_REQ: usize = 400;
pub const E_USER_EXISTS: usize = 401;
pub const E_BAD_CAPTCHA: usize = 402;
pub const E_USER_NOT_EXISTS: usize = 403;
pub const E_BAD_PASSWD: usize = 404;
pub const E_TOO_FREQUENT: usize = 405;
pub const E_PRODUCT_NOT_EXISTS: usize = 406;
pub const E_SEND_EMAIL: usize = 407;
pub const E_TOKEN_INVALID: usize = 408;
pub const E_PASSWORD_TOO_SHORT: usize = 409;
pub const E_EMAIL_DIFF: usize = 410;
pub const E_PARSE_EMAIL_REQ: usize = 411;
pub const E_EMAIL_VERIFY_CODE: usize = 412;

pub const E_INTERNAL: usize = 500;
pub const E_CUSTOM: usize = 501;
pub const E_DATABASE: usize = 502;
pub const E_PRODUCT_NOT_OPEN: usize = 888;

impl Error {
    /// The numeric code the transport layer reports for this error.
    pub open spec fn spec_code(&self) -> usize {
        match self {
            Error::UserNotLogin => E_USER_NOT_LOGIN,
            Error::UserPasswdError => E_BAD_PASSWD,
            Error::UserNotExists => E_USER_NOT_EXISTS,
            Error::ProductNotExists => E_PRODUCT_NOT_EXISTS,
            Error::ProductNotOpen => E_PRODUCT_NOT_OPEN,
            Error::Captcha => E_BAD_CAPTCHA,
            Error::EmailVerifyCode => E_EMAIL_VERIFY_CODE,
            Error::EmailDiff => E_EMAIL_DIFF,
            Error::SendEmail => E_SEND_EMAIL,
            Error::Frequent => E_TOO_FREQUENT,
            Error::UserExists(_) => E_USER_EXISTS,
            Error::UserPasswordTooShort => E_PASSWORD_TOO_SHORT,
            Error::TokenInvalid => E_TOKEN_INVALID,
            Error::Parse(_) => E_PARSE_REQ,
            Error::ParseEmail => E_PARSE_EMAIL_REQ,
            Error::DatabaseException(_) => E_DATABASE,
            Error::Internal(_) => E_INTERNAL,
            Error::Custom(_) => E_CUSTOM,
        }
    }

    /// The numeric code, as executable code.
    pub fn code(&self) -> (r: usize)
        ensures
            r == self.spec_code(),
    {
        match self {
            Error::UserNotLogin => E_USER_NOT_LOGIN,
            Error::UserPasswdError => E_BAD_PASSWD,
            Error::UserNotExists => E_USER_NOT_EXISTS,
            Error::ProductNotExists => E_PRODUCT_NOT_EXISTS,
            Error::ProductNotOpen => E_PRODUCT_NOT_OPEN,
            Error::Captcha => E_BAD_CAPTCHA,
            Error::EmailVerifyCode => E_EMAIL_VERIFY_CODE,
            Error::EmailDiff => E_EMAIL_DIFF,
            Error::SendEmail => E_SEND_EMAIL,
            Error::Frequent => E_TOO_FREQUENT,
            Error::UserExists(_) => E_USER_EXISTS,
            Error::UserPasswordTooShort => E_PASSWORD_TOO_SHORT,
            Error::TokenInvalid => E_TOKEN_INVALID,
            Error::Parse(_) => E_PARSE_REQ,
            Error::ParseEmail => E_PARSE_EMAIL_REQ,
            Error::DatabaseException(_) => E_DATABASE,
            Error::Internal(_) => E_INTERNAL,
            Error::Custom(_) => E_CUSTOM,
        }
    }
}

/// The result type every core operation returns.
pub type AppResult<T> = Result<T, Error>;

} // verus!
