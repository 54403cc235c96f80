//! From an identifier and the answer of the catalog to the display name of
//! the work.

use vstd::prelude::*;
use crate::extract::{extract, extracted, outcome_view, ExtractError};
use crate::name::{compose, composed, is_clean};
use crate::work::{classified, classify, uppercase, WorkType};

verus! {

/// What the one request for a page gave.
#[derive(Clone, Debug, PartialEq, Eq)]
pub enum Response {
    /// The catalog answered, with a status and a body.
    Arrived { status: u16, body: String },
    /// No answer arrived.
    Failed { cause: String },
}

/// An answer with its texts as sequences of characters.
pub enum ResponseView {
    Arrived { status: u16, body: Seq<char> },
    Failed { cause: Seq<char> },
}

impl View for Response {
    type V = ResponseView;

    open spec fn view(&self) -> ResponseView {
        match self {
            Response::Arrived { status, body } => ResponseView::Arrived {
                status: *status,
                body: body@,
            },
            Response::Failed { cause } => ResponseView::Failed { cause: cause@ },
        }
    }
}

/// Why a page could not be had.
#[derive(Clone, Debug, PartialEq, Eq)]
pub enum FetchCause {
    /// The request failed on its way.
    Transport(String),
    /// The catalog answered with a status that reports no success.
    Status(u16),
}

/// A cause with its text as a sequence of characters.
pub enum FetchCauseView {
    Transport(Seq<char>),
    Status(u16),
}

impl View for FetchCause {
    type V = FetchCauseView;

    open spec fn view(&self) -> FetchCauseView {
        match self {
            FetchCause::Transport(cause) => FetchCauseView::Transport(cause@),
            FetchCause::Status(status) => FetchCauseView::Status(*status),
        }
    }
}

/// Why an identifier got no display name.
#[derive(Clone, Debug, PartialEq, Eq)]
pub enum PipelineError {
    /// The identifier has the format of no work type.
    UnknownFormat,
    /// The page of the identifier could not be had.
    FetchFailed { id: String, cause: FetchCause },
    /// The page did not yield the fields of the work.
    Extraction(ExtractError),
}

/// An error with its texts as sequences of characters.
pub enum PipelineErrorView {
    UnknownFormat,
    FetchFailed { id: Seq<char>, cause: FetchCauseView },
    Extraction(ExtractError),
}

impl View for PipelineError {
    type V = PipelineErrorView;

    open spec fn view(&self) -> PipelineErrorView {
        match self {
            PipelineError::UnknownFormat => PipelineErrorView::UnknownFormat,
            PipelineError::FetchFailed { id, cause } => PipelineErrorView::FetchFailed {
                id: id@,
                cause: cause@,
            },
            PipelineError::Extraction(e) => PipelineErrorView::Extraction(*e),
        }
    }
}

/// Whether a status reports success.
pub open spec fn is_success(status: u16) -> bool {
    200 <= status < 300
}

/// The display name that the page `page` gives under the work type `work`.
pub open spec fn resolved(work: WorkType, page: Seq<char>) -> Result<Seq<char>, ExtractError> {
    match extracted(work, page) {
        Ok(fields) => Ok(composed(fields.product_id, fields.publisher_name, fields.title)),
        Err(e) => Err(e),
    }
}

/// The display name of the identifier `id`, given the answer to the request
/// for its page. The format of the identifier is looked at first, then the
/// answer, then the page.
pub open spec fn named(id: Seq<char>, response: ResponseView) -> Result<
    Seq<char>,
    PipelineErrorView,
> {
    match classified(uppercase(id)) {
        None => Err(PipelineErrorView::UnknownFormat),
        Some(work) => match response {
            ResponseView::Failed { cause } => Err(
                PipelineErrorView::FetchFailed { id, cause: FetchCauseView::Transport(cause) },
            ),
            ResponseView::Arrived { status, body } => if !is_success(status) {
                Err(PipelineErrorView::FetchFailed { id, cause: FetchCauseView::Status(status) })
            } else {
                match resolved(work, body) {
                    Ok(display) => Ok(display),
                    Err(e) => Err(PipelineErrorView::Extraction(e)),
                }
            },
        },
    }
}

/// An outcome with its texts as sequences of characters.
pub open spec fn named_view(r: Result<String, PipelineError>) -> Result<
    Seq<char>,
    PipelineErrorView,
> {
    match r {
        Ok(display) => Ok(display@),
        Err(e) => Err(e@),
    }
}

/// Tests whether a status reports success.
pub fn status_ok(status: u16) -> (r: bool)
    ensures
        r == is_success(status),
{
    200 <= status && status < 300
}

/// The outcome of `resolve_name` with the display name as a sequence of
/// characters.
pub open spec fn resolved_view(r: Result<String, ExtractError>) -> Result<Seq<char>, ExtractError> {
    match r {
        Ok(display) => Ok(display@),
        Err(e) => Err(e),
    }
}

/// Reads the fields of a work off its page and composes its display name.
pub fn resolve_name(work: WorkType, page: &str) -> (r: Result<String, ExtractError>)
    ensures
        resolved_view(r) == resolved(work, page@),
        r matches Ok(display) ==> is_clean(display@),
{
    match extract(work, page) {
        Ok(fields) => {
            assert(outcome_view(Ok(fields)) == extracted(work, page@));
            Ok(compose(&fields))
        },
        Err(e) => Err(e),
    }
}

/// Names the work of the identifier `id`, given the answer to the one
/// request for its page. An identifier of no known format is refused
/// whatever the answer; a request that failed, or an answer whose status
/// reports no success, is a failed fetch; a page that lacks the product id
/// or the title is an extraction error.
pub fn display_name(id: &str, response: Response) -> (r: Result<String, PipelineError>)
    ensures
        named_view(r) == named(id@, response@),
        r matches Ok(display) ==> is_clean(display@),
{
    let work = match classify(id) {
        Some(work) => work,
        None => {
            return Err(PipelineError::UnknownFormat);
        },
    };
    match response {
        Response::Failed { cause } => Err(
            PipelineError::FetchFailed { id: id.to_owned(), cause: FetchCause::Transport(cause) },
        ),
        Response::Arrived { status, body } => {
            if !status_ok(status) {
                return Err(
                    PipelineError::FetchFailed { id: id.to_owned(), cause: FetchCause::Status(status) },
                );
            }
            match resolve_name(work, body.as_str()) {
                Ok(display) => Ok(display),
                Err(e) => Err(PipelineError::Extraction(e)),
            }
        },
    }
}

} // verus!
