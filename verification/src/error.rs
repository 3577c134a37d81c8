//! The error kinds that the workbench rules report.

use vstd::prelude::*;

verus! {

/// A rejected request: invalid input, a missing record, a state conflict, or a failed outside service.
#[derive(Debug)]
pub enum AppError {
    BadRequest(String),
    NotFound(String),
    Conflict(String),
    External(String),
}

pub enum AppErrorView {
    BadRequest(Seq<char>),
    NotFound(Seq<char>),
    Conflict(Seq<char>),
    External(Seq<char>),
}

impl View for AppError {
    type V = AppErrorView;

    open spec fn view(&self) -> AppErrorView {
        match self {
            AppError::BadRequest(m) => AppErrorView::BadRequest(m@),
            AppError::NotFound(m) => AppErrorView::NotFound(m@),
            AppError::Conflict(m) => AppErrorView::Conflict(m@),
            AppError::External(m) => AppErrorView::External(m@),
        }
    }
}

impl AppErrorView {
    pub open spec fn message(self) -> Seq<char> {
        match self {
            AppErrorView::BadRequest(m) => m,
            AppErrorView::NotFound(m) => m,
            AppErrorView::Conflict(m) => m,
            AppErrorView::External(m) => m,
        }
    }
}

impl AppError {
    /// The text shown to the creator.
    pub fn message(&self) -> (r: String)
        ensures
            r@ == self@.message(),
    {
        match self {
            AppError::BadRequest(m) => m.clone(),
            AppError::NotFound(m) => m.clone(),
            AppError::Conflict(m) => m.clone(),
            AppError::External(m) => m.clone(),
        }
    }

    pub fn bad_request(message: &str) -> (r: AppError)
        ensures
            r@ == AppErrorView::BadRequest(message@),
    {
        AppError::BadRequest(message.to_owned())
    }
}

/// The view of a result whose success carries nothing.
pub open spec fn unit_result(r: Result<(), AppError>) -> Result<(), AppErrorView> {
    match r {
        Ok(()) => Ok(()),
        Err(e) => Err(e@),
    }
}

} // verus!
