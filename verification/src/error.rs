//! The error a request fails with; each variant maps to one HTTP status.
use vstd::prelude::*;

verus! {

/// Why a request was refused: `BadRequest` and `Validation` are 400,
/// `Unauthorized` 401, `NotFound` 404, `Conflict` 409, `Gone` 410 and
/// `Other` 500.
pub enum AppError {
    BadRequest(String),
    Validation(String),
    Unauthorized,
    NotFound,
    Conflict(String),
    Gone(String),
    Other(String),
}

/// The HTTP status code of an error.
pub open spec fn status_of(e: AppError) -> u16 {
    match e {
        AppError::BadRequest(_) => 400,
        AppError::Validation(_) => 400,
        AppError::Unauthorized => 401,
        AppError::NotFound => 404,
        AppError::Conflict(_) => 409,
        AppError::Gone(_) => 410,
        AppError::Other(_) => 500,
    }
}

/// `r` is a 400 answer with the message `msg`.
pub open spec fn bad_request<T>(r: Result<T, AppError>, msg: Seq<char>) -> bool {
    match r {
        Err(AppError::BadRequest(m)) => m@ == msg,
        _ => false,
    }
}

/// `r` is a 409 answer with the message `msg`.
pub open spec fn conflict<T>(r: Result<T, AppError>, msg: Seq<char>) -> bool {
    match r {
        Err(AppError::Conflict(m)) => m@ == msg,
        _ => false,
    }
}

/// `r` is a 410 answer with the message `msg`.
pub open spec fn gone<T>(r: Result<T, AppError>, msg: Seq<char>) -> bool {
    match r {
        Err(AppError::Gone(m)) => m@ == msg,
        _ => false,
    }
}

/// `r` failed with a server error (500).
pub open spec fn is_other<T>(r: Result<T, AppError>) -> bool {
    r matches Err(e) && e is Other
}

impl AppError {
    /// The HTTP status code this error is answered with.
    pub fn status(&self) -> (r: u16)
        ensures
            r == status_of(*self),
    {
        match self {
            AppError::BadRequest(_) => 400,
            AppError::Validation(_) => 400,
            AppError::Unauthorized => 401,
            AppError::NotFound => 404,
            AppError::Conflict(_) => 409,
            AppError::Gone(_) => 410,
            AppError::Other(_) => 500,
        }
    }
}

/// A `String` holding the characters of the literal `s`.
pub fn lit(s: &str) -> (r: String)
    ensures
        r@ == s@,
{
    s.to_owned()
}

/// The HTTP statuses of the errors: 400 for a bad request or a failed
/// validation, 401 unauthorized, 404 not found, 409 conflict, 410 gone and
/// 500 for any other failure.
pub proof fn lemma_status_codes(m: String)
    ensures
        status_of(AppError::BadRequest(m)) == 400,
        status_of(AppError::Validation(m)) == 400,
        status_of(AppError::Unauthorized) == 401,
        status_of(AppError::NotFound) == 404,
        status_of(AppError::Conflict(m)) == 409,
        status_of(AppError::Gone(m)) == 410,
        status_of(AppError::Other(m)) == 500,
{
}

} // verus!
