//! The errors that the library reports, and how each is shown to a client.

use vstd::prelude::*;

verus! {

/// What went wrong, as a code that clients can match on.
#[derive(Debug, Clone, Copy, PartialEq, Eq, Structural)]
pub enum ErrorCode {
    InvalidAssignee,
    ValidationError,
    DuplicateAccountEmail,
    InvalidPassword,
    InvalidEmailPwd,
    NotRefreshToken,
    InvalidRefreshToken,
    InvalidApiKey,
    AuthenticationFailed,
    ExpiredAuthToken,
    InvalidAuthToken,
    NotEnoughPermission,
    MemberNotFound,
    GroupNotFound,
    ProjectNotFound,
    ErrorLogNotFound,
    TransactionNotFound,
    InvalidEvent,
    DatabaseError,
    InternalError,
    TokenGenerationFailed,
    JwtInvalidToken,
    JwtExpiredToken,
    ExpiredRefreshToken,
    MissingField,
}

/// One field of a request that failed validation, and why.
#[derive(Debug, Clone)]
pub struct ValidationFieldError {
    pub field: String,
    pub message: String,
}

/// The contents of a list of field errors.
pub open spec fn field_views(errors: Seq<ValidationFieldError>) -> Seq<(Seq<char>, Seq<char>)> {
    Seq::new(errors.len(), |i: int| (errors[i].field@, errors[i].message@))
}

/// An error of the library: the class of failure and its code, or the list of
/// fields that failed validation.
#[derive(Debug)]
pub enum AppError {
    BadRequest(ErrorCode),
    Unauthorized(ErrorCode),
    Forbidden(ErrorCode),
    NotFound(ErrorCode),
    InternalServerError(ErrorCode),
    ValidationError(Vec<ValidationFieldError>),
}

impl ErrorCode {
    /// The message that tells a client what the code means.
    pub open spec fn message_text(self) -> Seq<char> {
        match self {
            ErrorCode::InvalidAssignee => "assignee를 찾을 수 없습니다"@,
            ErrorCode::ValidationError => "요청값 유효성 검사에 실패했습니다"@,
            ErrorCode::DuplicateAccountEmail => "이미 등록된 이메일입니다. 로그인해주세요"@,
            ErrorCode::InvalidPassword => "비밀번호는 최소 8자 이상이어야 합니다"@,
            ErrorCode::InvalidEmailPwd => "잘못된 자격 증명입니다"@,
            ErrorCode::NotRefreshToken => "잘못된 리프레시 토큰입니다"@,
            ErrorCode::InvalidRefreshToken => "리프레시 토큰이 유효하지 않습니다"@,
            ErrorCode::InvalidApiKey => "유효하지 않은 API 키입니다"@,
            ErrorCode::AuthenticationFailed => "인증에 실패했습니다"@,
            ErrorCode::ExpiredAuthToken => "로그인 토큰이 만료되었습니다"@,
            ErrorCode::InvalidAuthToken => "유효하지 않은 로그인 토큰입니다"@,
            ErrorCode::NotEnoughPermission => "권한이 부족합니다"@,
            ErrorCode::MemberNotFound => "사용자를 찾을 수 없습니다"@,
            ErrorCode::GroupNotFound => "유효하지 않은 그룹 ID입니다"@,
            ErrorCode::ProjectNotFound => "유효하지 않은 프로젝트 ID입니다"@,
            ErrorCode::ErrorLogNotFound => "유효하지 않은 에러 로그 ID입니다"@,
            ErrorCode::TransactionNotFound => "유효하지 않은 트랜잭션 ID입니다"@,
            ErrorCode::InvalidEvent => "유효하지 않은 이벤트입니다"@,
            ErrorCode::DatabaseError => "데이터베이스 오류가 발생했습니다"@,
            ErrorCode::InternalError => "내부 서버 오류가 발생했습니다"@,
            ErrorCode::TokenGenerationFailed => "토큰 생성에 실패했습니다"@,
            ErrorCode::JwtInvalidToken => "JWT 토큰이 유효하지 않습니다"@,
            ErrorCode::JwtExpiredToken => "JWT 토큰이 만료되었습니다"@,
            ErrorCode::ExpiredRefreshToken => "refreshToken이 만료되었습니다"@,
            ErrorCode::MissingField => "필수 요청값이 누락되었습니다"@,
        }
    }

    /// The name of the code, as clients match on it.
    pub open spec fn name_text(self) -> Seq<char> {
        match self {
            ErrorCode::InvalidAssignee => "InvalidAssignee"@,
            ErrorCode::ValidationError => "ValidationError"@,
            ErrorCode::DuplicateAccountEmail => "DuplicateAccountEmail"@,
            ErrorCode::InvalidPassword => "InvalidPassword"@,
            ErrorCode::InvalidEmailPwd => "InvalidEmailPwd"@,
            ErrorCode::NotRefreshToken => "NotRefreshToken"@,
            ErrorCode::InvalidRefreshToken => "InvalidRefreshToken"@,
            ErrorCode::InvalidApiKey => "InvalidApiKey"@,
            ErrorCode::AuthenticationFailed => "AuthenticationFailed"@,
            ErrorCode::ExpiredAuthToken => "ExpiredAuthToken"@,
            ErrorCode::InvalidAuthToken => "InvalidAuthToken"@,
            ErrorCode::NotEnoughPermission => "NotEnoughPermission"@,
            ErrorCode::MemberNotFound => "MemberNotFound"@,
            ErrorCode::GroupNotFound => "GroupNotFound"@,
            ErrorCode::ProjectNotFound => "ProjectNotFound"@,
            ErrorCode::ErrorLogNotFound => "ErrorLogNotFound"@,
            ErrorCode::TransactionNotFound => "TransactionNotFound"@,
            ErrorCode::InvalidEvent => "InvalidEvent"@,
            ErrorCode::DatabaseError => "DatabaseError"@,
            ErrorCode::InternalError => "InternalError"@,
            ErrorCode::TokenGenerationFailed => "TokenGenerationFailed"@,
            ErrorCode::JwtInvalidToken => "JwtInvalidToken"@,
            ErrorCode::JwtExpiredToken => "JwtExpiredToken"@,
            ErrorCode::ExpiredRefreshToken => "ExpiredRefreshToken"@,
            ErrorCode::MissingField => "MissingField"@,
        }
    }

    /// The message that tells a client what the code means.
    pub fn message(&self) -> (text: &'static str)
        ensures
            text@ == self.message_text(),
    {
        match self {
            ErrorCode::InvalidAssignee => "assignee를 찾을 수 없습니다",
            ErrorCode::ValidationError => "요청값 유효성 검사에 실패했습니다",
            ErrorCode::DuplicateAccountEmail => "이미 등록된 이메일입니다. 로그인해주세요",
            ErrorCode::InvalidPassword => "비밀번호는 최소 8자 이상이어야 합니다",
            ErrorCode::InvalidEmailPwd => "잘못된 자격 증명입니다",
            ErrorCode::NotRefreshToken => "잘못된 리프레시 토큰입니다",
            ErrorCode::InvalidRefreshToken => "리프레시 토큰이 유효하지 않습니다",
            ErrorCode::InvalidApiKey => "유효하지 않은 API 키입니다",
            ErrorCode::AuthenticationFailed => "인증에 실패했습니다",
            ErrorCode::ExpiredAuthToken => "로그인 토큰이 만료되었습니다",
            ErrorCode::InvalidAuthToken => "유효하지 않은 로그인 토큰입니다",
            ErrorCode::NotEnoughPermission => "권한이 부족합니다",
            ErrorCode::MemberNotFound => "사용자를 찾을 수 없습니다",
            ErrorCode::GroupNotFound => "유효하지 않은 그룹 ID입니다",
            ErrorCode::ProjectNotFound => "유효하지 않은 프로젝트 ID입니다",
            ErrorCode::ErrorLogNotFound => "유효하지 않은 에러 로그 ID입니다",
            ErrorCode::TransactionNotFound => "유효하지 않은 트랜잭션 ID입니다",
            ErrorCode::InvalidEvent => "유효하지 않은 이벤트입니다",
            ErrorCode::DatabaseError => "데이터베이스 오류가 발생했습니다",
            ErrorCode::InternalError => "내부 서버 오류가 발생했습니다",
            ErrorCode::TokenGenerationFailed => "토큰 생성에 실패했습니다",
            ErrorCode::JwtInvalidToken => "JWT 토큰이 유효하지 않습니다",
            ErrorCode::JwtExpiredToken => "JWT 토큰이 만료되었습니다",
            ErrorCode::ExpiredRefreshToken => "refreshToken이 만료되었습니다",
            ErrorCode::MissingField => "필수 요청값이 누락되었습니다",
        }
    }

    /// The name of the code, as clients match on it.
    pub fn name(&self) -> (text: &'static str)
        ensures
            text@ == self.name_text(),
    {
        match self {
            ErrorCode::InvalidAssignee => "InvalidAssignee",
            ErrorCode::ValidationError => "ValidationError",
            ErrorCode::DuplicateAccountEmail => "DuplicateAccountEmail",
            ErrorCode::InvalidPassword => "InvalidPassword",
            ErrorCode::InvalidEmailPwd => "InvalidEmailPwd",
            ErrorCode::NotRefreshToken => "NotRefreshToken",
            ErrorCode::InvalidRefreshToken => "InvalidRefreshToken",
            ErrorCode::InvalidApiKey => "InvalidApiKey",
            ErrorCode::AuthenticationFailed => "AuthenticationFailed",
            ErrorCode::ExpiredAuthToken => "ExpiredAuthToken",
            ErrorCode::InvalidAuthToken => "InvalidAuthToken",
            ErrorCode::NotEnoughPermission => "NotEnoughPermission",
            ErrorCode::MemberNotFound => "MemberNotFound",
            ErrorCode::GroupNotFound => "GroupNotFound",
            ErrorCode::ProjectNotFound => "ProjectNotFound",
            ErrorCode::ErrorLogNotFound => "ErrorLogNotFound",
            ErrorCode::TransactionNotFound => "TransactionNotFound",
            ErrorCode::InvalidEvent => "InvalidEvent",
            ErrorCode::DatabaseError => "DatabaseError",
            ErrorCode::InternalError => "InternalError",
            ErrorCode::TokenGenerationFailed => "TokenGenerationFailed",
            ErrorCode::JwtInvalidToken => "JwtInvalidToken",
            ErrorCode::JwtExpiredToken => "JwtExpiredToken",
            ErrorCode::ExpiredRefreshToken => "ExpiredRefreshToken",
            ErrorCode::MissingField => "MissingField",
        }
    }
}

/// The HTTP status that answers a bad request, and a failed validation.
pub const STATUS_BAD_REQUEST: u16 = 400;

/// The HTTP status that answers a request without a valid token.
pub const STATUS_UNAUTHORIZED: u16 = 401;

/// The HTTP status that answers a request that its user may not make.
pub const STATUS_FORBIDDEN: u16 = 403;

/// The HTTP status that answers a request for what does not exist.
pub const STATUS_NOT_FOUND: u16 = 404;

/// The HTTP status that answers a request that failed within the service.
pub const STATUS_INTERNAL_SERVER_ERROR: u16 = 500;

/// What a client is sent for an error.
pub enum ErrorResponse {
    General { error_code: String, message: String },
    Validation { code: String, message: String, errors: Vec<ValidationFieldError> },
}

impl AppError {
    /// A bad request with the code `code`.
    pub fn bad_request(code: ErrorCode) -> (e: Self)
        ensures
            e == AppError::BadRequest(code),
    {
        AppError::BadRequest(code)
    }

    /// A request without a valid token, with the code `code`.
    pub fn unauthorized(code: ErrorCode) -> (e: Self)
        ensures
            e == AppError::Unauthorized(code),
    {
        AppError::Unauthorized(code)
    }

    /// A request that its user may not make, with the code `code`.
    pub fn forbidden(code: ErrorCode) -> (e: Self)
        ensures
            e == AppError::Forbidden(code),
    {
        AppError::Forbidden(code)
    }

    /// A request for what does not exist, with the code `code`.
    pub fn not_found(code: ErrorCode) -> (e: Self)
        ensures
            e == AppError::NotFound(code),
    {
        AppError::NotFound(code)
    }

    /// A failure within the service, with the code `code`.
    pub fn internal_error(code: ErrorCode) -> (e: Self)
        ensures
            e == AppError::InternalServerError(code),
    {
        AppError::InternalServerError(code)
    }

    /// The HTTP status with which the error is answered.
    pub open spec fn status_of(self) -> u16 {
        match self {
            AppError::BadRequest(_) => STATUS_BAD_REQUEST,
            AppError::Unauthorized(_) => STATUS_UNAUTHORIZED,
            AppError::Forbidden(_) => STATUS_FORBIDDEN,
            AppError::NotFound(_) => STATUS_NOT_FOUND,
            AppError::InternalServerError(_) => STATUS_INTERNAL_SERVER_ERROR,
            AppError::ValidationError(_) => STATUS_BAD_REQUEST,
        }
    }

    /// The HTTP status with which the error is answered.
    pub fn status_code(&self) -> (status: u16)
        ensures
            status == self.status_of(),
    {
        match self {
            AppError::BadRequest(_) => STATUS_BAD_REQUEST,
            AppError::Unauthorized(_) => STATUS_UNAUTHORIZED,
            AppError::Forbidden(_) => STATUS_FORBIDDEN,
            AppError::NotFound(_) => STATUS_NOT_FOUND,
            AppError::InternalServerError(_) => STATUS_INTERNAL_SERVER_ERROR,
            AppError::ValidationError(_) => STATUS_BAD_REQUEST,
        }
    }

    /// The one-line description of the error: its class and the name of its code.
    pub open spec fn description(self) -> Seq<char> {
        match self {
            AppError::BadRequest(code) => "Bad Request: "@ + code.name_text(),
            AppError::Unauthorized(code) => "Unauthorized: "@ + code.name_text(),
            AppError::Forbidden(code) => "Forbidden: "@ + code.name_text(),
            AppError::NotFound(code) => "Not Found: "@ + code.name_text(),
            AppError::InternalServerError(code) => "Internal Server Error: "@ + code.name_text(),
            AppError::ValidationError(_) => "Validation Error"@,
        }
    }

    /// The one-line description of the error: its class and the name of its code.
    pub fn describe(&self) -> (text: String)
        ensures
            text@ == self.description(),
    {
        match self {
            AppError::BadRequest(code) => "Bad Request: ".to_owned().concat(code.name()),
            AppError::Unauthorized(code) => "Unauthorized: ".to_owned().concat(code.name()),
            AppError::Forbidden(code) => "Forbidden: ".to_owned().concat(code.name()),
            AppError::NotFound(code) => "Not Found: ".to_owned().concat(code.name()),
            AppError::InternalServerError(code) => "Internal Server Error: ".to_owned().concat(
                code.name(),
            ),
            AppError::ValidationError(_) => "Validation Error".to_owned(),
        }
    }

    /// The error for a failure of the store, whatever the store says of it in
    /// `description`: a database error. The description stays with the service.
    pub fn from_storage_failure(description: &str) -> (e: Self)
        ensures
            e == AppError::InternalServerError(ErrorCode::DatabaseError),
    {
        AppError::InternalServerError(ErrorCode::DatabaseError)
    }

    /// The error for a token that failed verification, by whether it had expired.
    pub fn from_token_failure(expired: bool) -> (e: Self)
        ensures
            e == if expired {
                AppError::Unauthorized(ErrorCode::JwtExpiredToken)
            } else {
                AppError::Unauthorized(ErrorCode::JwtInvalidToken)
            },
    {
        if expired {
            AppError::Unauthorized(ErrorCode::JwtExpiredToken)
        } else {
            AppError::Unauthorized(ErrorCode::JwtInvalidToken)
        }
    }

    /// What a client is sent for the error: the name and the message of its code, or
    /// the fields that failed validation.
    pub fn error_response(&self) -> (body: ErrorResponse)
        ensures
            match *self {
                AppError::BadRequest(code)
                | AppError::Unauthorized(code)
                | AppError::Forbidden(code)
                | AppError::NotFound(code)
                | AppError::InternalServerError(code) => body matches ErrorResponse::General {
                    error_code,
                    message,
                } && error_code@ == code.name_text() && message@ == code.message_text(),
                AppError::ValidationError(fields) => body matches ErrorResponse::Validation {
                    code,
                    message,
                    errors,
                } && code@ == "ValidationError"@ && message@
                    == ErrorCode::ValidationError.message_text() && field_views(errors@)
                    == field_views(fields@),
            },
    {
        match self {
            AppError::ValidationError(fields) => {
                let mut errors: Vec<ValidationFieldError> = Vec::new();
                let mut i: usize = 0;
                while i < fields.len()
                    invariant
                        i <= fields.len(),
                        field_views(errors@) == field_views(fields@.take(i as int)),
                    decreases fields.len() - i,
                {
                    let ghost held = errors@;
                    let copy = ValidationFieldError {
                        field: fields[i].field.clone(),
                        message: fields[i].message.clone(),
                    };
                    errors.push(copy);
                    i += 1;
                    proof {
                        let shown = field_views(fields@.take(i as int));
                        let before = field_views(fields@.take(i - 1));
                        assert(field_views(held) == before);
                        assert forall|j: int| 0 <= j < shown.len() implies field_views(errors@)[j]
                            == shown[j] by {
                            if j < i - 1 {
                                assert(errors@[j] == held[j]);
                                assert(field_views(held)[j] == before[j]);
                            }
                        }
                        assert(field_views(errors@) =~= shown);
                    }
                }
                proof {
                    assert(fields@.take(fields@.len() as int) =~= fields@);
                }
                ErrorResponse::Validation {
                    code: "ValidationError".to_owned(),
                    message: ErrorCode::ValidationError.message().to_owned(),
                    errors,
                }
            },
            AppError::BadRequest(code)
            | AppError::Unauthorized(code)
            | AppError::Forbidden(code)
            | AppError::NotFound(code)
            | AppError::InternalServerError(code) => ErrorResponse::General {
                error_code: code.name().to_owned(),
                message: code.message().to_owned(),
            },
        }
    }
}

} // verus!
