use vstd::prelude::*;

use crate::error::Error;
use crate::request_items::Body;

verus! {

/// The `User-Agent` sent with requests; a fixed one in test mode.
pub fn get_user_agent(test_mode: bool) -> (r: &'static str)
    ensures
        test_mode ==> r@ == "xh/0.0.0 (test mode)"@,
        !test_mode ==> r@ == "xh/0.1.0"@,
{
    if test_mode {
        "xh/0.0.0 (test mode)"
    } else {
        "xh/0.1.0"
    }
}

/// The method used when none is given: POST where there is a body, else GET.
pub fn default_method(has_body: bool) -> (r: &'static str)
    ensures
        has_body ==> r@ == "POST"@,
        !has_body ==> r@ == "GET"@,
{
    if has_body {
        "POST"
    } else {
        "GET"
    }
}

/// Where the request body comes from.
#[derive(Clone, Copy, Debug, PartialEq, Eq, Structural)]
pub enum BodySource {
    /// The body assembled from the items, or none.
    Items,
    /// The bytes piped to the process, sent as they are.
    Stdin,
}

/// Decides the body's source: piped input is used when the items make no body,
/// and piped input together with an assembled body is an error.
pub fn body_source(assembled: &Option<Body>, stdin_piped: bool) -> (r: Result<BodySource, Error>)
    ensures
        !stdin_piped ==> r matches Ok(BodySource::Items),
        stdin_piped && assembled.is_none() ==> r matches Ok(BodySource::Stdin),
        stdin_piped && assembled.is_some() ==> r matches Err(Error::ConflictingBodySources),
{
    if !stdin_piped {
        Ok(BodySource::Items)
    } else if assembled.is_some() {
        Err(Error::ConflictingBodySources)
    } else {
        Ok(BodySource::Stdin)
    }
}

/// Which parts of the exchange are printed.
#[derive(Clone, Copy, Debug, PartialEq, Eq, Structural)]
pub struct Print {
    pub request_headers: bool,
    pub request_body: bool,
    pub response_headers: bool,
    pub response_body: bool,
}

impl Print {
    /// The parts printed when none are named: everything when verbose, nothing
    /// when quiet, the request when offline, the response headers when asked for
    /// or when downloading, the response body when asked for or when output is
    /// not a terminal, and otherwise the whole response.
    pub fn new(
        verbose: bool,
        headers: bool,
        body: bool,
        quiet: bool,
        offline: bool,
        is_terminal: bool,
        download: bool,
    ) -> (r: Print)
        ensures
            r == (if verbose {
                Print { request_headers: true, request_body: true, response_headers: true, response_body: true }
            } else if quiet {
                Print { request_headers: false, request_body: false, response_headers: false, response_body: false }
            } else if offline {
                Print { request_headers: true, request_body: true, response_headers: false, response_body: false }
            } else if headers || download {
                Print { request_headers: false, request_body: false, response_headers: true, response_body: false }
            } else if body || !is_terminal {
                Print { request_headers: false, request_body: false, response_headers: false, response_body: true }
            } else {
                Print { request_headers: false, request_body: false, response_headers: true, response_body: true }
            }),
    {
        let (request_headers, request_body, response_headers, response_body) = if verbose {
            (true, true, true, true)
        } else if quiet {
            (false, false, false, false)
        } else if offline {
            (true, true, false, false)
        } else if headers || download {
            (false, false, true, false)
        } else if body || !is_terminal {
            (false, false, false, true)
        } else {
            (false, false, true, true)
        };
        Print { request_headers, request_body, response_headers, response_body }
    }
}

} // verus!
