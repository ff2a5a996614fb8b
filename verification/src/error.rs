//! The error every fallible operation of the library reports.
use vstd::prelude::*;

verus! {

/// An error with a stable machine-readable `code`, a message for the user and,
/// for some errors, a detail value (such as the fingerprint a server presented).
#[derive(Clone, Debug)]
pub struct AppError {
    pub code: String,
    pub message: String,
    pub detail: Option<String>,
}

impl AppError {
    /// An error with a code and a message and no detail.
    pub fn new(code: &str, message: &str) -> (e: AppError)
        ensures
            e.code@ == code@,
            e.message@ == message@,
            e.detail is None,
    {
        AppError { code: code.to_owned(), message: message.to_owned(), detail: None }
    }

    /// An error with a code, a message and a detail value.
    pub fn detail(code: &str, message: &str, detail: &str) -> (e: AppError)
        ensures
            e.code@ == code@,
            e.message@ == message@,
            e.detail matches Some(d) && d@ == detail@,
    {
        AppError {
            code: code.to_owned(),
            message: message.to_owned(),
            detail: Some(detail.to_owned()),
        }
    }

    /// `self` has exactly this code and message and no detail.
    pub open spec fn is(self, code: Seq<char>, message: Seq<char>) -> bool {
        &&& self.code@ == code
        &&& self.message@ == message
        &&& self.detail is None
    }
}

/// `r` failed with exactly this code and message and no detail.
pub open spec fn fails_with<T>(r: Result<T, AppError>, code: Seq<char>, message: Seq<char>) -> bool {
    r matches Err(e) && e.is(code, message)
}

/// `r` failed with exactly this code, message and detail.
pub open spec fn fails_with_detail<T>(
    r: Result<T, AppError>,
    code: Seq<char>,
    message: Seq<char>,
    detail: Seq<char>,
) -> bool {
    match r {
        Err(e) => e.code@ == code && e.message@ == message && match e.detail {
            Some(d) => d@ == detail,
            None => false,
        },
        Ok(_) => false,
    }
}

} // verus!
