//! What the server answers to a download.

use vstd::prelude::*;
use vstd::string::*;

use crate::error::{Fault, UbiError};
use crate::text::optional_slice_text;

verus! {

/// How `StatusCode`, which `reqwest` has from the `http` crate, displays the status
/// code `code`: the number and the reason that goes with it.
pub uninterp spec fn status_line(code: u16) -> Seq<char>;

/// Calls `StatusCode::from_u16` and displays the result, and claims that what it
/// displays depends on the code alone. Only codes of three digits are status codes.
#[verifier::external_body]
fn status_text(code: u16) -> (text: String)
    requires
        100 <= code <= 999,
    ensures
        text@ == status_line(code),
{
    reqwest::StatusCode::from_u16(code).unwrap().to_string()
}

/// Whether the body of an answer with this status code is the asset.
pub fn accepts(status: u16) -> (accepted: bool)
    ensures
        accepted == (status == 200),
{
    status == 200
}

/// The fault of a download from `url` that was answered with this status code, and
/// with `body` where one could be read.
pub fn request_error(url: &str, status: u16, body: Option<&str>) -> (fault: UbiError)
    requires
        100 <= status <= 999,
    ensures
        fault@ == (Fault::Request {
            url: url@,
            status: status_line(status),
            body: optional_slice_text(body),
        }),
{
    Fault::Request {
        url: url.to_owned(),
        status: status_text(status),
        body: match body {
            Some(body) => Some(body.to_owned()),
            None => None,
        },
    }
}

} // verus!
