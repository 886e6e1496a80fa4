use rusty_replay::auth::{
    access_decision, blank, has_char, refresh_decision, renewal_decision,
    validate_login_request, validate_register_request, AccessDecision, Claims, JwtUtils,
    RenewalDecision, TokenVerifyResult,
};
use rusty_replay::error::{AppError, ErrorCode, ErrorResponse, ValidationFieldError};
use rusty_replay::project::{
    api_key_from_uuid, first_live_project, generate_api_key, ProjectCreateRequest, ProjectRow,
    ProjectUpdateRequest,
};
use rusty_replay::time::Timestamp;

fn at(nanos: u64) -> Timestamp {
    Timestamp { unix_nanos: nanos }
}

fn fields(r: Result<(), AppError>) -> Vec<(String, String)> {
    match r {
        Err(AppError::ValidationError(errors)) => {
            errors.into_iter().map(|e| (e.field, e.message)).collect()
        }
        Ok(()) => Vec::new(),
        Err(other) => panic!("unexpected error {:?}", other),
    }
}

fn claims(sub: &str, role: &str) -> Claims {
    Claims { sub: sub.to_string(), role: role.to_string(), exp: 10, iat: 5 }
}

const NEEDS_EMAIL: &str = "\u{c774}\u{ba54}\u{c77c}\u{c740} \u{d544}\u{c218}\u{c785}\u{b2c8}\u{b2e4}.";
const BAD_EMAIL: &str =
    "\u{c720}\u{d6a8}\u{d55c} \u{c774}\u{ba54}\u{c77c} \u{d615}\u{c2dd}\u{c774} \u{c544}\u{b2d9}\u{b2c8}\u{b2e4}.";
const NEEDS_NAME: &str = "\u{c0ac}\u{c6a9}\u{c790}\u{ba85}\u{c740} \u{d544}\u{c218}\u{c785}\u{b2c8}\u{b2e4}.";
const SHORT_PASSWORD: &str = "\u{be44}\u{bc00}\u{bc88}\u{d638}\u{b294} \u{cd5c}\u{c18c} 8\u{c790} \u{c774}\u{c0c1}\u{c774}\u{c5b4}\u{c57c} \u{d569}\u{b2c8}\u{b2e4}.";

#[test]
fn valid_login_is_accepted() {
    assert!(validate_login_request("a@b.c", "12345678").is_ok());
    assert!(validate_login_request("no-at-sign", "12345678").is_ok());
}

#[test]
fn login_errors_come_field_by_field() {
    assert_eq!(
        fields(validate_login_request("  \t", "1234567")),
        vec![
            ("email".to_string(), NEEDS_EMAIL.to_string()),
            ("password".to_string(), SHORT_PASSWORD.to_string()),
        ]
    );
    assert_eq!(
        fields(validate_login_request("", "12345678")),
        vec![("email".to_string(), NEEDS_EMAIL.to_string())]
    );
    assert_eq!(
        fields(validate_login_request("x", "")),
        vec![("password".to_string(), SHORT_PASSWORD.to_string())]
    );
}

#[test]
fn password_length_counts_bytes() {
    assert!(validate_login_request("x", "\u{be44}\u{bc00}\u{bc88}").is_ok());
    assert!(validate_login_request("x", "\u{be44}\u{bc00}a").is_err());
}

#[test]
fn valid_registration_is_accepted() {
    assert!(validate_register_request("ann", "ann@example.com", "password").is_ok());
}

#[test]
fn registration_errors_come_in_order() {
    assert_eq!(
        fields(validate_register_request(" ", "\u{3000}", "short")),
        vec![
            ("username".to_string(), NEEDS_NAME.to_string()),
            ("email".to_string(), NEEDS_EMAIL.to_string()),
            ("password".to_string(), SHORT_PASSWORD.to_string()),
        ]
    );
    assert_eq!(
        fields(validate_register_request("ann", "ann.example.com", "password")),
        vec![("email".to_string(), BAD_EMAIL.to_string())]
    );
    assert_eq!(
        fields(validate_register_request("", "a@b", "password")),
        vec![("username".to_string(), NEEDS_NAME.to_string())]
    );
}

#[test]
fn blank_means_white_space_only() {
    assert!(blank(""));
    assert!(blank(" \t\r\n\u{a0}\u{2003}\u{3000}\u{85}\u{1680}\u{2028}\u{205f}"));
    assert!(!blank(" a "));
    assert!(!blank("\u{200b}"));
    assert!(!blank("\u{1c}"));
    for code in 0u32..0x3100 {
        if let Some(c) = char::from_u32(code) {
            assert_eq!(blank(&c.to_string()), c.is_whitespace());
        }
    }
    assert!(has_char("a@b", '@'));
    assert!(!has_char("ab", '@'));
}

#[test]
fn refresh_is_granted_to_refresh_tokens_only() {
    assert_eq!(refresh_decision(TokenVerifyResult::Valid(claims("17", "refresh"))).unwrap(), 17);
    assert!(matches!(
        refresh_decision(TokenVerifyResult::Valid(claims("17", "user"))),
        Err(AppError::Unauthorized(ErrorCode::NotRefreshToken))
    ));
    assert!(matches!(
        refresh_decision(TokenVerifyResult::Valid(claims("abc", "refresh"))),
        Err(AppError::InternalServerError(ErrorCode::InternalError))
    ));
    assert!(matches!(
        refresh_decision(TokenVerifyResult::Expired),
        Err(AppError::Unauthorized(ErrorCode::InvalidRefreshToken))
    ));
    assert!(matches!(
        refresh_decision(TokenVerifyResult::Invalid),
        Err(AppError::Unauthorized(ErrorCode::InvalidRefreshToken))
    ));
}

#[test]
fn guard_decides_by_the_access_token() {
    match access_decision(Some(TokenVerifyResult::Valid(claims("5", "user")))) {
        AccessDecision::Proceed { claims, user_id } => {
            assert_eq!(user_id, Some(5));
            assert_eq!(claims.role, "user");
        }
        _ => panic!("a valid token goes on"),
    }
    assert!(matches!(
        access_decision(Some(TokenVerifyResult::Valid(claims("five", "user")))),
        AccessDecision::Proceed { user_id: None, .. }
    ));
    assert!(matches!(access_decision(Some(TokenVerifyResult::Expired)), AccessDecision::TryRefresh));
    assert!(matches!(
        access_decision(Some(TokenVerifyResult::Invalid)),
        AccessDecision::Reject(AppError::Unauthorized(ErrorCode::InvalidAuthToken))
    ));
    assert!(matches!(
        access_decision(None),
        AccessDecision::Reject(AppError::Unauthorized(ErrorCode::InvalidAuthToken))
    ));
}

#[test]
fn guard_renews_by_the_refresh_token() {
    assert!(matches!(
        renewal_decision(Some(TokenVerifyResult::Valid(claims("8", "refresh")))),
        RenewalDecision::Renew { user_id: 8 }
    ));
    assert!(matches!(
        renewal_decision(Some(TokenVerifyResult::Valid(claims("8", "admin")))),
        RenewalDecision::Reject(AppError::Unauthorized(ErrorCode::InvalidRefreshToken))
    ));
    assert!(matches!(
        renewal_decision(Some(TokenVerifyResult::Valid(claims("", "refresh")))),
        RenewalDecision::Reject(AppError::InternalServerError(ErrorCode::InternalError))
    ));
    assert!(matches!(
        renewal_decision(Some(TokenVerifyResult::Expired)),
        RenewalDecision::Reject(AppError::Unauthorized(ErrorCode::ExpiredRefreshToken))
    ));
    assert!(matches!(
        renewal_decision(Some(TokenVerifyResult::Invalid)),
        RenewalDecision::Reject(AppError::Unauthorized(ErrorCode::InvalidRefreshToken))
    ));
    assert!(matches!(
        renewal_decision(None),
        RenewalDecision::Reject(AppError::Unauthorized(ErrorCode::ExpiredAuthToken))
    ));
}

#[test]
fn claims_expire_after_their_term() {
    let access = JwtUtils::access_claims(42, "user", 1_000).unwrap();
    assert_eq!(access.sub, "42");
    assert_eq!(access.role, "user");
    assert_eq!(access.iat, 1_000);
    assert_eq!(access.exp, 4_600);
    let refresh = JwtUtils::refresh_claims(-1, 1_000).unwrap();
    assert_eq!(refresh.sub, "-1");
    assert_eq!(refresh.role, "refresh");
    assert_eq!(refresh.exp, 2_593_000);
    assert!(JwtUtils::access_claims(1, "user", usize::MAX).is_none());
    assert!(JwtUtils::refresh_claims(1, usize::MAX - 5).is_none());
    assert!(matches!(JwtUtils::verify_result(None, true), TokenVerifyResult::Expired));
    assert!(matches!(JwtUtils::verify_result(None, false), TokenVerifyResult::Invalid));
    assert!(matches!(
        JwtUtils::verify_result(Some(claims("1", "user")), true),
        TokenVerifyResult::Valid(_)
    ));
}

#[test]
fn errors_have_status_name_and_message() {
    let cases = [
        (AppError::bad_request(ErrorCode::InvalidApiKey), 400, "Bad Request: InvalidApiKey"),
        (AppError::unauthorized(ErrorCode::JwtExpiredToken), 401, "Unauthorized: JwtExpiredToken"),
        (AppError::forbidden(ErrorCode::NotEnoughPermission), 403, "Forbidden: NotEnoughPermission"),
        (AppError::not_found(ErrorCode::ProjectNotFound), 404, "Not Found: ProjectNotFound"),
        (
            AppError::internal_error(ErrorCode::DatabaseError),
            500,
            "Internal Server Error: DatabaseError",
        ),
        (AppError::ValidationError(Vec::new()), 400, "Validation Error"),
    ];
    for (error, status, text) in cases {
        assert_eq!(error.status_code(), status);
        assert_eq!(error.describe(), text);
    }
    assert!(matches!(
        AppError::bad_request(ErrorCode::InvalidEvent),
        AppError::BadRequest(ErrorCode::InvalidEvent)
    ));
    assert_eq!(
        ErrorCode::InvalidApiKey.message(),
        "\u{c720}\u{d6a8}\u{d558}\u{c9c0} \u{c54a}\u{c740} API \u{d0a4}\u{c785}\u{b2c8}\u{b2e4}"
    );
    assert_eq!(
        ErrorCode::ExpiredRefreshToken.message(),
        "refreshToken\u{c774} \u{b9cc}\u{b8cc}\u{b418}\u{c5c8}\u{c2b5}\u{b2c8}\u{b2e4}"
    );
    assert_eq!(ErrorCode::MissingField.name(), "MissingField");
    assert_eq!(ErrorCode::InvalidAssignee.name(), "InvalidAssignee");
    assert_eq!(format!("{:?}", ErrorCode::GroupNotFound), ErrorCode::GroupNotFound.name());
}

#[test]
fn storage_failures_are_database_errors_whatever_their_description() {
    for description in [
        "Execution Error: Duplicate entry 'a@b' for key 'email'",
        "Record not found: Duplicate entry",
        "Record not found",
        "connection lost",
        "",
    ] {
        let error = AppError::from_storage_failure(description);
        assert!(matches!(error, AppError::InternalServerError(ErrorCode::DatabaseError)));
        assert_eq!(error.status_code(), 500);
        assert_eq!(error.describe(), "Internal Server Error: DatabaseError");
    }
}

#[test]
fn token_failures_are_told_apart_by_expiry() {
    assert!(matches!(
        AppError::from_token_failure(true),
        AppError::Unauthorized(ErrorCode::JwtExpiredToken)
    ));
    assert!(matches!(
        AppError::from_token_failure(false),
        AppError::Unauthorized(ErrorCode::JwtInvalidToken)
    ));
}

#[test]
fn error_body_names_code_and_message() {
    match AppError::not_found(ErrorCode::ErrorLogNotFound).error_response() {
        ErrorResponse::General { error_code, message } => {
            assert_eq!(error_code, "ErrorLogNotFound");
            assert_eq!(message, ErrorCode::ErrorLogNotFound.message());
        }
        _ => panic!("a general body"),
    }
    let field = ValidationFieldError { field: "email".to_string(), message: "m".to_string() };
    match AppError::ValidationError(vec![field]).error_response() {
        ErrorResponse::Validation { code, message, errors } => {
            assert_eq!(code, "ValidationError");
            assert_eq!(message, ErrorCode::ValidationError.message());
            assert_eq!(errors.len(), 1);
            assert_eq!(errors[0].field, "email");
        }
        _ => panic!("a validation body"),
    }
}

#[test]
fn project_key_is_the_uuid_without_hyphens() {
    assert_eq!(
        api_key_from_uuid("123e4567-e89b-42d3-a456-426614174000"),
        "proj_123e4567e89b42d3a456426614174000"
    );
    assert_eq!(api_key_from_uuid("---"), "proj_");
    assert_eq!(api_key_from_uuid(""), "proj_");
    let key = generate_api_key();
    assert!(key.starts_with("proj_"));
    assert_eq!(key.len(), 37);
    assert!(key[5..].chars().all(|c| c.is_ascii_hexdigit()));
    assert_ne!(key, generate_api_key());
}

#[test]
fn projects_are_created_changed_and_marked() {
    let request = ProjectCreateRequest { name: "shop".to_string(), description: None };
    let mut row = ProjectRow::from_request(request, 3, "proj_k".to_string(), at(10));
    assert_eq!((row.id, row.name.as_str(), row.api_key.as_str()), (3, "shop", "proj_k"));
    assert_eq!(row.created_at, at(10));
    assert_eq!(row.updated_at, None);
    row.apply_update(
        &ProjectUpdateRequest { name: None, description: Some("web shop".to_string()) },
        at(20),
    );
    assert_eq!(row.name, "shop");
    assert_eq!(row.description.as_deref(), Some("web shop"));
    assert_eq!(row.updated_at, Some(at(20)));
    row.apply_update(&ProjectUpdateRequest { name: Some("store".to_string()), description: None }, at(30));
    assert_eq!(row.name, "store");
    assert_eq!(row.description.as_deref(), Some("web shop"));
    assert!(!row.is_deleted());
    row.soft_delete(9, at(40));
    assert!(row.is_deleted());
    assert_eq!(row.deleted_by, Some(9));
    let live = ProjectRow::from_request(
        ProjectCreateRequest { name: "live".to_string(), description: None },
        4,
        "proj_l".to_string(),
        at(1),
    );
    let rows = vec![row, live];
    assert_eq!(first_live_project(&rows), Some(1));
    let mut rows = rows;
    rows[1].soft_delete(1, at(2));
    assert_eq!(first_live_project(&rows), None);
    rows[0].restore();
    assert_eq!(first_live_project(&rows), Some(0));
    assert_eq!(first_live_project(&Vec::new()), None);
}
