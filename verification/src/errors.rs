use vstd::prelude::*;

verus! {

/// The error kinds of the service. `StorageError` stands for any
/// lower-level storage failure that no more precise kind describes.
#[derive(Clone, Copy, Debug, PartialEq, Eq, Structural)]
pub enum NinetyTwoError {
    RecordAlreadyExist,
    AccessTokenNotFound,
    AccessTokenExpired,
    InvalidAccessToken,
    RefreshTokenNotFound,
    RefreshTokenExpired,
    InvalidRefreshToken,
    StorageError,
}

/// The HTTP status a handler reports for an error: 409 for a slug
/// conflict, 404 for a missing row, 500 for everything else.
pub open spec fn spec_http_status(e: NinetyTwoError) -> int {
    match e {
        NinetyTwoError::RecordAlreadyExist => 409,
        NinetyTwoError::AccessTokenNotFound => 404,
        NinetyTwoError::RefreshTokenNotFound => 404,
        _ => 500,
    }
}

/// The description of each error kind.
pub open spec fn spec_message(e: NinetyTwoError) -> Seq<char> {
    match e {
        NinetyTwoError::RecordAlreadyExist => "Record already exists"@,
        NinetyTwoError::AccessTokenNotFound => "access token not found"@,
        NinetyTwoError::AccessTokenExpired => "access token expired"@,
        NinetyTwoError::InvalidAccessToken => "invalid access token"@,
        NinetyTwoError::RefreshTokenNotFound => "refresh token not found"@,
        NinetyTwoError::RefreshTokenExpired => "refresh token expired"@,
        NinetyTwoError::InvalidRefreshToken => "invalid refresh token"@,
        NinetyTwoError::StorageError => "storage error"@,
    }
}

impl NinetyTwoError {
    pub fn http_status(&self) -> (code: u16)
        ensures
            code == spec_http_status(*self),
    {
        match self {
            NinetyTwoError::RecordAlreadyExist => 409,
            NinetyTwoError::AccessTokenNotFound => 404,
            NinetyTwoError::RefreshTokenNotFound => 404,
            _ => 500,
        }
    }

    pub fn message(&self) -> (s: String)
        ensures
            s@ == spec_message(*self),
    {
        match self {
            NinetyTwoError::RecordAlreadyExist => "Record already exists".to_owned(),
            NinetyTwoError::AccessTokenNotFound => "access token not found".to_owned(),
            NinetyTwoError::AccessTokenExpired => "access token expired".to_owned(),
            NinetyTwoError::InvalidAccessToken => "invalid access token".to_owned(),
            NinetyTwoError::RefreshTokenNotFound => "refresh token not found".to_owned(),
            NinetyTwoError::RefreshTokenExpired => "refresh token expired".to_owned(),
            NinetyTwoError::InvalidRefreshToken => "invalid refresh token".to_owned(),
            NinetyTwoError::StorageError => "storage error".to_owned(),
        }
    }
}

/// Status and code of an error rendered as JSON by the web layer.
#[derive(Clone, Copy, Debug, PartialEq, Eq, Structural)]
pub struct ErrorResponse {
    pub code: u16,
    pub http_status: u16,
}

} // verus!
