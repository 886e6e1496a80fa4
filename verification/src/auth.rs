//! Accounts and tokens, as far as the library decides about them: what a request must
//! hold to be valid, what a token claims, and what follows from a verified token.

use vstd::prelude::*;
use vstd::utf8::encode_utf8;
use crate::error::{field_views, AppError, ErrorCode, ValidationFieldError};
use crate::text::{chars_of, decimal_of_i64, decimal_of_int, parse_i32, parse_int_within, same_text};

verus! {

/// The least number of bytes of a password.
pub const MIN_PASSWORD_LEN: usize = 8;

/// For how long an access token is valid: one hour, in seconds.
pub const ACCESS_TOKEN_SECONDS: usize = 3600;

/// For how long a refresh token is valid: thirty days, in seconds.
pub const REFRESH_TOKEN_SECONDS: usize = 2_592_000;

/// A request to open an account.
#[derive(Debug)]
pub struct RegisterRequest {
    pub username: String,
    pub email: String,
    pub password: String,
}

/// A request to log in.
#[derive(Debug)]
pub struct LoginRequest {
    pub email: String,
    pub password: String,
}

/// What a client is sent after it has logged in.
#[derive(Debug)]
pub struct AuthResponse {
    pub token: String,
    pub refresh_token: String,
    pub user_id: i32,
    pub username: String,
    pub email: String,
    pub role: String,
}

/// A request for a new access token.
#[derive(Debug)]
pub struct RefreshTokenRequest {
    pub refresh_token: String,
}

/// What a token claims.
#[derive(Debug, Clone)]
pub struct Claims {
    /// The identifier of the user, in decimal.
    pub sub: String,
    /// The role of the user, or `refresh` for a refresh token.
    pub role: String,
    /// When the token expires, in seconds since the Unix epoch.
    pub exp: usize,
    /// When the token was issued, in seconds since the Unix epoch.
    pub iat: usize,
}

/// What the verification of a token came to.
pub enum TokenVerifyResult {
    Valid(Claims),
    Expired,
    Invalid,
}

/// The maker of token claims.
pub struct JwtUtils;

/// The number of bytes that a text takes in UTF-8.
pub open spec fn byte_len(s: Seq<char>) -> nat {
    encode_utf8(s).len()
}

/// Whether a character is white space, as Unicode defines it.
pub open spec fn is_whitespace_char(c: char) -> bool {
    let n = c as u32;
    (0x09 <= n && n <= 0x0d) || n == 0x20 || n == 0x85 || n == 0xa0 || n == 0x1680 || (0x2000
        <= n && n <= 0x200a) || n == 0x2028 || n == 0x2029 || n == 0x202f || n == 0x205f || n
        == 0x3000
}

/// `char::is_whitespace` holds of the characters with the Unicode property
/// `White_Space`: the ASCII controls from tab to carriage return, the space, and the
/// further separators listed by their code points.
pub assume_specification[ char::is_whitespace ](c: char) -> (r: bool)
    ensures
        r == is_whitespace_char(c),
;

/// Whether a text holds nothing but white space.
pub open spec fn is_blank(s: Seq<char>) -> bool {
    forall|i: int| 0 <= i < s.len() ==> is_whitespace_char(#[trigger] s[i])
}

/// What is wrong with a user name: it is blank.
pub open spec fn username_problems(username: Seq<char>) -> Seq<(Seq<char>, Seq<char>)> {
    if is_blank(username) {
        seq![("username"@, "사용자명은 필수입니다."@)]
    } else {
        Seq::empty()
    }
}

/// What is wrong with the e-mail address of a login: it is blank.
pub open spec fn login_email_problems(email: Seq<char>) -> Seq<(Seq<char>, Seq<char>)> {
    if is_blank(email) {
        seq![("email"@, "이메일은 필수입니다."@)]
    } else {
        Seq::empty()
    }
}

/// What is wrong with the e-mail address of a new account: it is blank, or it holds
/// no `@`.
pub open spec fn register_email_problems(email: Seq<char>) -> Seq<(Seq<char>, Seq<char>)> {
    if is_blank(email) {
        seq![("email"@, "이메일은 필수입니다."@)]
    } else if !email.contains('@') {
        seq![("email"@, "유효한 이메일 형식이 아닙니다."@)]
    } else {
        Seq::empty()
    }
}

/// What is wrong with a password of `len` bytes: it is shorter than eight.
pub open spec fn password_problems(len: nat) -> Seq<(Seq<char>, Seq<char>)> {
    if len < MIN_PASSWORD_LEN {
        seq![("password"@, "비밀번호는 최소 8자 이상이어야 합니다."@)]
    } else {
        Seq::empty()
    }
}

/// What is wrong with a login, field by field.
pub open spec fn login_problems(email: Seq<char>, password_len: nat) -> Seq<(Seq<char>, Seq<char>)> {
    login_email_problems(email) + password_problems(password_len)
}

/// What is wrong with a request to open an account, field by field.
pub open spec fn register_problems(username: Seq<char>, email: Seq<char>, password_len: nat) -> Seq<
    (Seq<char>, Seq<char>),
> {
    username_problems(username) + register_email_problems(email) + password_problems(
        password_len,
    )
}

/// Whether `s` holds nothing but white space.
pub fn blank(s: &str) -> (b: bool)
    ensures
        b == is_blank(s@),
{
    let chars = chars_of(s);
    let mut i: usize = 0;
    while i < chars.len()
        invariant
            i <= chars.len(),
            chars@ == s@,
            forall|j: int| 0 <= j < i ==> is_whitespace_char(#[trigger] chars@[j]),
        decreases chars.len() - i,
    {
        if !chars[i].is_whitespace() {
            return false;
        }
        i += 1;
    }
    true
}

/// Whether the character `c` occurs in `s`.
pub fn has_char(s: &str, c: char) -> (b: bool)
    ensures
        b == s@.contains(c),
{
    let chars = chars_of(s);
    let mut i: usize = 0;
    while i < chars.len()
        invariant
            i <= chars.len(),
            chars@ == s@,
            forall|j: int| 0 <= j < i ==> chars@[j] != c,
        decreases chars.len() - i,
    {
        if chars[i] == c {
            return true;
        }
        i += 1;
    }
    false
}

/// Adds to `errors` the error of the field `field` with the message `message`.
fn push_problem(errors: &mut Vec<ValidationFieldError>, field: &str, message: &str)
    ensures
        field_views(final(errors)@) == field_views(old(errors)@).push((field@, message@)),
{
    errors.push(ValidationFieldError { field: field.to_owned(), message: message.to_owned() });
    proof {
        assert(field_views(errors@) =~= field_views(old(errors)@).push((field@, message@)));
    }
}

/// Adds to `errors` what is wrong with `password`.
fn check_password(errors: &mut Vec<ValidationFieldError>, password: &str)
    ensures
        field_views(final(errors)@) == field_views(old(errors)@) + password_problems(
            byte_len(password@),
        ),
{
    if password.as_bytes().len() < MIN_PASSWORD_LEN {
        push_problem(errors, "password", "비밀번호는 최소 8자 이상이어야 합니다.");
        proof {
            assert(field_views(errors@) =~= field_views(old(errors)@) + password_problems(
                byte_len(password@),
            ));
        }
    } else {
        proof {
            assert(field_views(errors@) =~= field_views(old(errors)@) + password_problems(
                byte_len(password@),
            ));
        }
    }
}

/// Accepts a login whose e-mail address is not blank and whose password has at least
/// eight bytes; refuses any other with the errors of its fields, e-mail first.
pub fn validate_login_request(email: &str, password: &str) -> (r: Result<(), AppError>)
    ensures
        match r {
            Ok(()) => login_problems(email@, byte_len(password@)).len() == 0,
            Err(e) => e matches AppError::ValidationError(errors) && errors@.len() > 0
                && field_views(errors@) == login_problems(email@, byte_len(password@)),
        },
{
    let mut errors: Vec<ValidationFieldError> = Vec::new();
    proof {
        assert(field_views(errors@) =~= Seq::empty());
    }
    if blank(email) {
        push_problem(&mut errors, "email", "이메일은 필수입니다.");
    }
    proof {
        assert(field_views(errors@) =~= login_email_problems(email@));
    }
    check_password(&mut errors, password);
    if errors.len() == 0 {
        Ok(())
    } else {
        Err(AppError::ValidationError(errors))
    }
}

/// Accepts a request to open an account whose user name is not blank, whose e-mail
/// address is not blank and holds an `@`, and whose password has at least eight
/// bytes; refuses any other with the errors of its fields, in this order.
pub fn validate_register_request(username: &str, email: &str, password: &str) -> (r: Result<
    (),
    AppError,
>)
    ensures
        match r {
            Ok(()) => register_problems(username@, email@, byte_len(password@)).len()
                == 0,
            Err(e) => e matches AppError::ValidationError(errors) && errors@.len() > 0
                && field_views(errors@) == register_problems(
                username@,
                email@,
                byte_len(password@),
            ),
        },
{
    let mut errors: Vec<ValidationFieldError> = Vec::new();
    proof {
        assert(field_views(errors@) =~= Seq::empty());
    }
    if blank(username) {
        push_problem(&mut errors, "username", "사용자명은 필수입니다.");
    }
    proof {
        assert(field_views(errors@) =~= username_problems(username@));
    }
    let ghost named = field_views(errors@);
    if blank(email) {
        push_problem(&mut errors, "email", "이메일은 필수입니다.");
    } else if !has_char(email, '@') {
        push_problem(&mut errors, "email", "유효한 이메일 형식이 아닙니다.");
    }
    proof {
        assert(field_views(errors@) =~= named + register_email_problems(email@));
    }
    check_password(&mut errors, password);
    if errors.len() == 0 {
        Ok(())
    } else {
        Err(AppError::ValidationError(errors))
    }
}

/// The user that a token names: its subject read as a decimal `i32`.
pub open spec fn subject_id(claims: Claims) -> Option<i32> {
    match parse_int_within(claims.sub@, i32::MIN as int, i32::MAX as int) {
        Some(v) => Some(v as i32),
        None => None,
    }
}

/// Whether a token is a refresh token.
pub open spec fn is_refresh(claims: Claims) -> bool {
    claims.role@ == "refresh"@
}

/// What follows from the refresh token of a request for a new access token: the user
/// to issue it to, or the refusal.
pub open spec fn refresh_outcome(result: TokenVerifyResult) -> Result<i32, AppError> {
    match result {
        TokenVerifyResult::Valid(claims) => if !is_refresh(claims) {
            Err(AppError::Unauthorized(ErrorCode::NotRefreshToken))
        } else {
            match subject_id(claims) {
                Some(user_id) => Ok(user_id),
                None => Err(AppError::InternalServerError(ErrorCode::InternalError)),
            }
        },
        _ => Err(AppError::Unauthorized(ErrorCode::InvalidRefreshToken)),
    }
}

/// What the guard of the protected routes does with a request.
pub enum AccessDecision {
    /// The request goes on, as the user that the token names where it names one.
    Proceed { claims: Claims, user_id: Option<i32> },
    /// The access token has expired: the refresh token decides.
    TryRefresh,
    Reject(AppError),
}

/// What the guard does with a request whose access token has expired.
pub enum RenewalDecision {
    /// The request goes on, and the user is sent a new access token.
    Renew { user_id: i32 },
    Reject(AppError),
}

/// What the guard does with a request, by its access token: `None` where it has none.
pub open spec fn access_outcome(access: Option<TokenVerifyResult>) -> AccessDecision {
    match access {
        Some(TokenVerifyResult::Valid(claims)) => AccessDecision::Proceed {
            claims,
            user_id: subject_id(claims),
        },
        Some(TokenVerifyResult::Expired) => AccessDecision::TryRefresh,
        _ => AccessDecision::Reject(AppError::Unauthorized(ErrorCode::InvalidAuthToken)),
    }
}

/// What the guard does with a request whose access token has expired, by its refresh
/// token: `None` where it has none.
pub open spec fn renewal_outcome(refresh: Option<TokenVerifyResult>) -> RenewalDecision {
    match refresh {
        None => RenewalDecision::Reject(AppError::Unauthorized(ErrorCode::ExpiredAuthToken)),
        Some(TokenVerifyResult::Valid(claims)) => if is_refresh(claims) {
            match subject_id(claims) {
                Some(user_id) => RenewalDecision::Renew { user_id },
                None => RenewalDecision::Reject(
                    AppError::InternalServerError(ErrorCode::InternalError),
                ),
            }
        } else {
            RenewalDecision::Reject(AppError::Unauthorized(ErrorCode::InvalidRefreshToken))
        },
        Some(TokenVerifyResult::Expired) => RenewalDecision::Reject(
            AppError::Unauthorized(ErrorCode::ExpiredRefreshToken),
        ),
        Some(TokenVerifyResult::Invalid) => RenewalDecision::Reject(
            AppError::Unauthorized(ErrorCode::InvalidRefreshToken),
        ),
    }
}

/// The user for whom a request for a new access token is granted: the one that its
/// refresh token names. A valid token that is no refresh token, a token that has
/// expired or is invalid, and a subject that is no number are refused, each as such.
pub fn refresh_decision(result: TokenVerifyResult) -> (r: Result<i32, AppError>)
    ensures
        r == refresh_outcome(result),
{
    match result {
        TokenVerifyResult::Valid(claims) => {
            if !same_text(claims.role.as_str(), "refresh") {
                return Err(AppError::Unauthorized(ErrorCode::NotRefreshToken));
            }
            match parse_i32(claims.sub.as_str()) {
                Some(user_id) => Ok(user_id),
                None => Err(AppError::InternalServerError(ErrorCode::InternalError)),
            }
        },
        TokenVerifyResult::Expired => Err(AppError::Unauthorized(ErrorCode::InvalidRefreshToken)),
        TokenVerifyResult::Invalid => Err(AppError::Unauthorized(ErrorCode::InvalidRefreshToken)),
    }
}

/// What the guard of the protected routes does with a request, by what the
/// verification of its access token came to.
pub fn access_decision(access: Option<TokenVerifyResult>) -> (decision: AccessDecision)
    ensures
        decision == access_outcome(access),
{
    match access {
        Some(TokenVerifyResult::Valid(claims)) => {
            let user_id = parse_i32(claims.sub.as_str());
            AccessDecision::Proceed { claims, user_id }
        },
        Some(TokenVerifyResult::Expired) => AccessDecision::TryRefresh,
        Some(TokenVerifyResult::Invalid) => AccessDecision::Reject(
            AppError::Unauthorized(ErrorCode::InvalidAuthToken),
        ),
        None => AccessDecision::Reject(AppError::Unauthorized(ErrorCode::InvalidAuthToken)),
    }
}

/// What the guard does with a request whose access token has expired, by what the
/// verification of its refresh token came to.
pub fn renewal_decision(refresh: Option<TokenVerifyResult>) -> (decision: RenewalDecision)
    ensures
        decision == renewal_outcome(refresh),
{
    match refresh {
        None => RenewalDecision::Reject(AppError::Unauthorized(ErrorCode::ExpiredAuthToken)),
        Some(TokenVerifyResult::Valid(claims)) => {
            if same_text(claims.role.as_str(), "refresh") {
                match parse_i32(claims.sub.as_str()) {
                    Some(user_id) => RenewalDecision::Renew { user_id },
                    None => RenewalDecision::Reject(
                        AppError::InternalServerError(ErrorCode::InternalError),
                    ),
                }
            } else {
                RenewalDecision::Reject(AppError::Unauthorized(ErrorCode::InvalidRefreshToken))
            }
        },
        Some(TokenVerifyResult::Expired) => RenewalDecision::Reject(
            AppError::Unauthorized(ErrorCode::ExpiredRefreshToken),
        ),
        Some(TokenVerifyResult::Invalid) => RenewalDecision::Reject(
            AppError::Unauthorized(ErrorCode::InvalidRefreshToken),
        ),
    }
}

impl JwtUtils {
    /// The claims of an access token issued to `user_id` in the role `role` at `now`,
    /// in seconds since the Unix epoch: valid for one hour. `None` where the time of
    /// expiry cannot be represented.
    pub fn access_claims(user_id: i32, role: &str, now: usize) -> (r: Option<Claims>)
        ensures
            match r {
                Some(claims) => {
                    &&& now + ACCESS_TOKEN_SECONDS <= usize::MAX
                    &&& claims.sub@ == decimal_of_int(user_id as int)
                    &&& claims.role@ == role@
                    &&& claims.exp == now + ACCESS_TOKEN_SECONDS
                    &&& claims.iat == now
                },
                None => now + ACCESS_TOKEN_SECONDS > usize::MAX,
            },
    {
        if now > usize::MAX - ACCESS_TOKEN_SECONDS {
            return None;
        }
        Some(
            Claims {
                sub: decimal_of_i64(user_id as i64),
                role: role.to_owned(),
                exp: now + ACCESS_TOKEN_SECONDS,
                iat: now,
            },
        )
    }

    /// The claims of a refresh token issued to `user_id` at `now`, in seconds since the
    /// Unix epoch: valid for thirty days. `None` where the time of expiry cannot be
    /// represented.
    pub fn refresh_claims(user_id: i32, now: usize) -> (r: Option<Claims>)
        ensures
            match r {
                Some(claims) => {
                    &&& now + REFRESH_TOKEN_SECONDS <= usize::MAX
                    &&& claims.sub@ == decimal_of_int(user_id as int)
                    &&& is_refresh(claims)
                    &&& claims.exp == now + REFRESH_TOKEN_SECONDS
                    &&& claims.iat == now
                },
                None => now + REFRESH_TOKEN_SECONDS > usize::MAX,
            },
    {
        if now > usize::MAX - REFRESH_TOKEN_SECONDS {
            return None;
        }
        Some(
            Claims {
                sub: decimal_of_i64(user_id as i64),
                role: "refresh".to_owned(),
                exp: now + REFRESH_TOKEN_SECONDS,
                iat: now,
            },
        )
    }

    /// What the verification of a token came to: its claims where it is valid, else
    /// whether it has expired.
    pub fn verify_result(claims: Option<Claims>, expired: bool) -> (r: TokenVerifyResult)
        ensures
            r == match claims {
                Some(c) => TokenVerifyResult::Valid(c),
                None => if expired {
                    TokenVerifyResult::Expired
                } else {
                    TokenVerifyResult::Invalid
                },
            },
    {
        match claims {
            Some(c) => TokenVerifyResult::Valid(c),
            None => if expired {
                TokenVerifyResult::Expired
            } else {
                TokenVerifyResult::Invalid
            },
        }
    }
}

} // verus!
