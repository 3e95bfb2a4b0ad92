//! How a request is answered: the status that goes with what was found for
//! it and with how the attempt to produce the answer went.

use crate::site::Target;
use crate::site::TargetView;
use vstd::prelude::*;

verus! {

/// How the attempt to produce the answer to one request went.
#[derive(Debug, Clone, Copy, PartialEq, Eq, Structural)]
pub enum Attempt {
    /// The page was rendered, or the file was read.
    Produced,
    /// There is nothing to give: no such file, or no such template.
    Missing,
    /// The handler failed.
    Failed,
}

/// The status of an answer.
#[derive(Debug, Clone, Copy, PartialEq, Eq, Structural)]
pub enum Status {
    Success,
    BadRequest,
    NotFound,
    InternalError,
}

/// The number that stands for a status on the wire.
pub open spec fn code_of(status: Status) -> u16 {
    match status {
        Status::Success => 200,
        Status::BadRequest => 400,
        Status::NotFound => 404,
        Status::InternalError => 500,
    }
}

impl Status {
    /// The number that stands for this status on the wire.
    pub fn code(self) -> (code: u16)
        ensures
            code == code_of(self),
    {
        match self {
            Status::Success => 200,
            Status::BadRequest => 400,
            Status::NotFound => 404,
            Status::InternalError => 500,
        }
    }
}

/// The status that answers a request. A path that would leave its mount is
/// a bad request, whatever else holds. A page that was rendered is a
/// success, the fallback page too: that no route matched is no failure. A
/// file that is not there is not found. Every failure of a handler, and a
/// page without its template, is an internal error of that one request.
pub open spec fn status_of(target: TargetView, attempt: Attempt) -> Status {
    match target {
        TargetView::Rejected { .. } => Status::BadRequest,
        TargetView::Page(_) => match attempt {
            Attempt::Produced => Status::Success,
            _ => Status::InternalError,
        },
        TargetView::Asset { .. } => match attempt {
            Attempt::Produced => Status::Success,
            Attempt::Missing => Status::NotFound,
            Attempt::Failed => Status::InternalError,
        },
    }
}

/// Gives the status that answers a request, from what was found for it and
/// how the attempt to produce the answer went.
pub fn status_for(target: &Target, attempt: Attempt) -> (status: Status)
    ensures
        status == status_of(target@, attempt),
{
    match target {
        Target::Rejected { .. } => Status::BadRequest,
        Target::Page(_) => match attempt {
            Attempt::Produced => Status::Success,
            _ => Status::InternalError,
        },
        Target::Asset { .. } => match attempt {
            Attempt::Produced => Status::Success,
            Attempt::Missing => Status::NotFound,
            Attempt::Failed => Status::InternalError,
        },
    }
}

/// Every request gets an answer with a status of its own, and an answer
/// that was produced for a path that stays within the site is a success:
/// no request is answered with an error unless its own path or its own
/// handler gave rise to it.
pub proof fn lemma_errors_have_their_own_cause(target: TargetView, attempt: Attempt)
    ensures
        status_of(target, attempt) == Status::Success <==> !(target is Rejected) && attempt
            == Attempt::Produced,
        status_of(target, attempt) == Status::BadRequest <==> target is Rejected,
        status_of(target, attempt) == Status::NotFound ==> target is Asset && attempt
            == Attempt::Missing,
        status_of(target, attempt) == Status::InternalError ==> attempt != Attempt::Produced,
{
}

} // verus!
