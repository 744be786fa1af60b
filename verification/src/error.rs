//! The errors that request handlers answer with, and the HTTP status and
//! message that each one is answered with.
use vstd::prelude::*;

use crate::text::{owned, push_text};

verus! {

/// An error a request handler ends with.
#[derive(Debug, Clone, PartialEq, Eq)]
pub enum AppError {
    NotFound,
    Unauthorized,
    Forbidden,
    /// A request the caller must correct; the text says how.
    BadRequest(String),
    /// An internal failure; its description is only logged.
    Other(String),
    /// A database failure; its description is only logged.
    Db(String),
}

/// The status code of the answer to `e`.
pub open spec fn status_of(e: AppError) -> u16 {
    match e {
        AppError::NotFound => 404,
        AppError::Unauthorized => 401,
        AppError::Forbidden => 403,
        AppError::BadRequest(_) => 400,
        AppError::Other(_) => 500,
        AppError::Db(_) => 500,
    }
}

/// The `error` text of the answer to `e`: internal failures are not described.
pub open spec fn message_of(e: AppError) -> Seq<char> {
    match e {
        AppError::NotFound => "not found"@,
        AppError::Unauthorized => "unauthorized"@,
        AppError::Forbidden => "forbidden"@,
        AppError::BadRequest(m) => "bad request: "@ + m@,
        AppError::Other(_) => "internal error"@,
        AppError::Db(_) => "internal error"@,
    }
}

impl AppError {
    /// `into_response`: the status code and the `error` text of the answer.
    pub fn status_and_message(&self) -> (r: (u16, String))
        ensures
            r.0 == status_of(*self),
            r.1@ == message_of(*self),
    {
        match self {
            AppError::NotFound => (404, owned("not found")),
            AppError::Unauthorized => (401, owned("unauthorized")),
            AppError::Forbidden => (403, owned("forbidden")),
            AppError::BadRequest(m) => {
                let mut text = owned("bad request: ");
                push_text(&mut text, m.as_str());
                (400, text)
            },
            AppError::Other(_) => (500, owned("internal error")),
            AppError::Db(_) => (500, owned("internal error")),
        }
    }

    /// Whether the answer hides the cause (it is logged instead).
    pub fn is_internal(&self) -> (r: bool)
        ensures
            r == (status_of(*self) == 500),
    {
        match self {
            AppError::Other(_) | AppError::Db(_) => true,
            _ => false,
        }
    }
}

} // verus!
