//! Requests to the service and how their answers are judged.

use vstd::prelude::*;
use crate::error::SeError;

verus! {

/// A form-encoded POST: where it goes, the `Referer` header if any, and the
/// form fields in order.
pub struct FormRequest {
    pub url: String,
    pub referer: Option<String>,
    pub fields: Vec<(String, String)>,
}

pub struct FormRequestView {
    pub url: Seq<char>,
    pub referer: Option<Seq<char>>,
    pub fields: Seq<(Seq<char>, Seq<char>)>,
}

pub open spec fn text_of(s: Option<String>) -> Option<Seq<char>> {
    match s {
        Some(x) => Some(x@),
        None => None,
    }
}

pub open spec fn pairs_view(p: Seq<(String, String)>) -> Seq<(Seq<char>, Seq<char>)> {
    p.map_values(|e: (String, String)| (e.0@, e.1@))
}

impl View for FormRequest {
    type V = FormRequestView;

    open spec fn view(&self) -> FormRequestView {
        FormRequestView { url: self.url@, referer: text_of(self.referer), fields: pairs_view(self.fields@) }
    }
}

/// One call to the service.
pub enum HttpCall {
    Get(String),
    Post(FormRequest),
}

pub enum HttpCallView {
    Get(Seq<char>),
    Post(FormRequestView),
}

impl View for HttpCall {
    type V = HttpCallView;

    open spec fn view(&self) -> HttpCallView {
        match self {
            HttpCall::Get(u) => HttpCallView::Get(u@),
            HttpCall::Post(f) => HttpCallView::Post(f@),
        }
    }
}

/// What came of a call: an answer with its status and body, or a failure
/// of the transport with its description.
#[derive(Debug)]
pub enum HttpOutcome {
    Answer { status: u16, body: String },
    Transport(String),
}

/// A form field from two texts.
pub fn field(name: &str, value: &str) -> (r: (String, String))
    ensures
        r.0@ == name@,
        r.1@ == value@,
{
    (String::from_str(name), String::from_str(value))
}

/// The text that an answer counts as, or the error it stands for: 409 is
/// rate limiting, any other status outside 200..=299 a bad response.
pub open spec fn checked_answer(status: u16, body: String) -> Result<String, SeError> {
    if 200 <= status <= 299 {
        Ok(body)
    } else if status == 409 {
        Err(SeError::RateLimited)
    } else {
        Err(SeError::BadResponse(status, body))
    }
}

/// The body of an answer to an authenticated post, or the error that the
/// outcome stands for.
pub open spec fn checked_outcome(outcome: HttpOutcome) -> Result<String, SeError> {
    match outcome {
        HttpOutcome::Answer { status, body } => checked_answer(status, body),
        HttpOutcome::Transport(detail) => Err(SeError::TransportError(detail)),
    }
}

/// Judges the outcome of an authenticated post.
pub fn check_outcome(outcome: HttpOutcome) -> (r: Result<String, SeError>)
    ensures
        r == checked_outcome(outcome),
{
    match outcome {
        HttpOutcome::Answer { status, body } => {
            if 200 <= status && status <= 299 {
                Ok(body)
            } else if status == 409 {
                Err(SeError::RateLimited)
            } else {
                Err(SeError::BadResponse(status, body))
            }
        },
        HttpOutcome::Transport(detail) => Err(SeError::TransportError(detail)),
    }
}

} // verus!
