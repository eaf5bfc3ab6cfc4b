//! What is decided about a request to the remote service before it is sent
//! and after its answer has come.

use vstd::prelude::*;
use crate::error::{CommErr, CommErrView};
use crate::json::{get_value_str, Json, JsonView};
use crate::strings::{before_first, first_part};

verus! {

/// The method of a request.
#[derive(Clone, Copy, Debug, PartialEq, Eq, Structural)]
pub enum RequestMethod {
    GET,
    POST,
    PATCH,
    DELETE,
}

impl RequestMethod {
    /// Whether a request of this method carries a body.
    pub fn sends_body(&self) -> (r: bool)
        ensures
            r == (*self is POST || *self is PATCH),
    {
        match self {
            RequestMethod::POST | RequestMethod::PATCH => true,
            _ => false,
        }
    }

    /// Whether a request of this method names the type of its content in a
    /// header.
    pub fn names_content_type(&self) -> (r: bool)
        ensures
            r == (*self is POST),
    {
        match self {
            RequestMethod::POST => true,
            _ => false,
        }
    }
}

/// Whether a status code reports success.
pub open spec fn is_success(code: u16) -> bool {
    200 <= code < 300
}

/// What an answer of the remote service amounts to: its body where the
/// status code reports success, else a failure with the code and the body's
/// `message`, which must be there.
pub open spec fn answer_of(code: u16, body: JsonView) -> Result<JsonView, CommErrView> {
    if is_success(code) {
        Ok(body)
    } else {
        match body.str_field("message"@) {
            Ok(message) => Err(CommErrView::FetchErr(code, message)),
            Err(e) => Err(e),
        }
    }
}

/// Judges an answer of the remote service by its status code.
pub fn answer(code: u16, body: Json) -> (r: Result<Json, CommErr>)
    ensures
        match r {
            Ok(v) => answer_of(code, body@) == Ok::<JsonView, CommErrView>(v@),
            Err(e) => answer_of(code, body@) == Err::<JsonView, CommErrView>(e@),
        },
{
    if 200 <= code && code < 300 {
        Ok(body)
    } else {
        match get_value_str(&body, "message") {
            Ok(message) => Err(CommErr::FetchErr(code, message)),
            Err(e) => Err(e),
        }
    }
}

/// The part of a path before its first slash: the name under which an
/// answer is kept when answers are recorded.
pub fn record_name(path: &str) -> (r: String)
    ensures
        r@ == first_part(path@, '/'),
{
    before_first(path, '/')
}

} // verus!
