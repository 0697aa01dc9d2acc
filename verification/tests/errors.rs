use ninety_two::errors::{ErrorResponse, NinetyTwoError};

#[test]
fn http_status_maps_conflict_missing_and_the_rest() {
    assert_eq!(NinetyTwoError::RecordAlreadyExist.http_status(), 409);
    assert_eq!(NinetyTwoError::AccessTokenNotFound.http_status(), 404);
    assert_eq!(NinetyTwoError::RefreshTokenNotFound.http_status(), 404);
    assert_eq!(NinetyTwoError::AccessTokenExpired.http_status(), 500);
    assert_eq!(NinetyTwoError::RefreshTokenExpired.http_status(), 500);
    assert_eq!(NinetyTwoError::InvalidAccessToken.http_status(), 500);
    assert_eq!(NinetyTwoError::InvalidRefreshToken.http_status(), 500);
    assert_eq!(NinetyTwoError::StorageError.http_status(), 500);
}

#[test]
fn messages_name_each_kind() {
    assert_eq!(NinetyTwoError::RecordAlreadyExist.message(), "Record already exists");
    assert_eq!(NinetyTwoError::AccessTokenNotFound.message(), "access token not found");
    assert_eq!(NinetyTwoError::AccessTokenExpired.message(), "access token expired");
    assert_eq!(NinetyTwoError::InvalidAccessToken.message(), "invalid access token");
    assert_eq!(NinetyTwoError::RefreshTokenNotFound.message(), "refresh token not found");
    assert_eq!(NinetyTwoError::RefreshTokenExpired.message(), "refresh token expired");
    assert_eq!(NinetyTwoError::InvalidRefreshToken.message(), "invalid refresh token");
    assert_eq!(NinetyTwoError::StorageError.message(), "storage error");
}

#[test]
fn error_response_carries_code_and_status() {
    let e = ErrorResponse { code: 409, http_status: 409 };
    assert_eq!(e, ErrorResponse { code: 409, http_status: 409 });
    assert_ne!(e, ErrorResponse { code: 500, http_status: 500 });
}
