//! The errors that every service of the backend reports.

use vstd::prelude::*;

verus! {

/// What a service reports when it cannot do what was asked.
#[derive(Debug)]
pub enum ServiceError {
    /// The store or a serialisation step failed; nothing is said of why.
    InternalServerError,
    /// An internal failure that carries a message for the caller.
    InternalServerErrorWithHint(String),
    /// A rule of the domain was broken; the hint says which.
    BadRequest(String),
    /// The caller is not logged in.
    Unauthorized,
    /// The caller is logged in but may not do this; the hint says why.
    UnauthorizedWithHint(String),
    /// What was asked for does not exist.
    NotFound,
}

pub type ServiceResult<T> = Result<T, ServiceError>;

/// A `ServiceError` with its hint as a sequence of characters.
pub enum ErrorView {
    InternalServerError,
    InternalServerErrorWithHint(Seq<char>),
    BadRequest(Seq<char>),
    Unauthorized,
    UnauthorizedWithHint(Seq<char>),
    NotFound,
}

impl View for ServiceError {
    type V = ErrorView;

    open spec fn view(&self) -> ErrorView {
        match self {
            ServiceError::InternalServerError => ErrorView::InternalServerError,
            ServiceError::InternalServerErrorWithHint(h) => ErrorView::InternalServerErrorWithHint(
                h@,
            ),
            ServiceError::BadRequest(h) => ErrorView::BadRequest(h@),
            ServiceError::Unauthorized => ErrorView::Unauthorized,
            ServiceError::UnauthorizedWithHint(h) => ErrorView::UnauthorizedWithHint(h@),
            ServiceError::NotFound => ErrorView::NotFound,
        }
    }
}

impl Clone for ServiceError {
    fn clone(&self) -> (e: ServiceError)
        ensures
            e@ == self@,
    {
        match self {
            ServiceError::InternalServerError => ServiceError::InternalServerError,
            ServiceError::InternalServerErrorWithHint(h) => ServiceError::InternalServerErrorWithHint(
                h.clone(),
            ),
            ServiceError::BadRequest(h) => ServiceError::BadRequest(h.clone()),
            ServiceError::Unauthorized => ServiceError::Unauthorized,
            ServiceError::UnauthorizedWithHint(h) => ServiceError::UnauthorizedWithHint(h.clone()),
            ServiceError::NotFound => ServiceError::NotFound,
        }
    }
}

/// What a check that yields no value came to: `Ok`, or the view of its error.
pub open spec fn outcome(r: ServiceResult<()>) -> Result<(), ErrorView> {
    match r {
        Ok(_) => Ok(()),
        Err(e) => Err(e@),
    }
}

impl ServiceError {
    /// A `BadRequest` with the given hint.
    pub fn bad_request(hint: &str) -> (e: ServiceError)
        ensures
            e@ == ErrorView::BadRequest(hint@),
    {
        ServiceError::BadRequest(hint.to_owned())
    }

    /// An `UnauthorizedWithHint` with the given hint.
    pub fn unauthorized_with_hint(hint: &str) -> (e: ServiceError)
        ensures
            e@ == ErrorView::UnauthorizedWithHint(hint@),
    {
        ServiceError::UnauthorizedWithHint(hint.to_owned())
    }

    /// The message shown to the caller: the hint where there is one, a fixed
    /// sentence otherwise.
    pub fn message(&self) -> (m: String)
        ensures
            m@ == self@.message(),
    {
        match self {
            ServiceError::InternalServerError => "Internal Server Error".to_owned(),
            ServiceError::InternalServerErrorWithHint(h) => h.clone(),
            ServiceError::BadRequest(h) => h.clone(),
            ServiceError::Unauthorized => "Unauthorized".to_owned(),
            ServiceError::UnauthorizedWithHint(h) => h.clone(),
            ServiceError::NotFound => "Not Found".to_owned(),
        }
    }
}

impl ErrorView {
    pub open spec fn message(self) -> Seq<char> {
        match self {
            ErrorView::InternalServerError => "Internal Server Error"@,
            ErrorView::InternalServerErrorWithHint(h) => h,
            ErrorView::BadRequest(h) => h,
            ErrorView::Unauthorized => "Unauthorized"@,
            ErrorView::UnauthorizedWithHint(h) => h,
            ErrorView::NotFound => "Not Found"@,
        }
    }
}

} // verus!
