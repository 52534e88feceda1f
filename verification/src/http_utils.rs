//! Turning HTTP outcomes into the application's errors.

use vstd::prelude::*;
use vstd::string::*;
use crate::config::Config;
use crate::error::{ClaiError, ClaiErrorView};

verus! {

/// A status in 200..=299.
pub open spec fn is_success(status: u16) -> bool {
    200 <= status && status <= 299
}

/// Exec test of `is_success`.
pub fn status_is_success(status: u16) -> (b: bool)
    ensures
        b == is_success(status),
{
    200 <= status && status <= 299
}

/// The error for an upstream call that answered with a failure status.
pub open spec fn upstream_status_error(operation: Seq<char>, status_text: Seq<char>) -> ClaiErrorView {
    ClaiErrorView::Server(operation + " returned error status: "@ + status_text)
}

/// Common HTTP response utilities for handlers.
pub struct HttpUtils;

impl HttpUtils {
    /// `Ok` for a success status; otherwise a server error naming the
    /// operation and the status (`status_text` is how the status displays,
    /// such as "500 Internal Server Error").
    pub fn check_response_status(operation: &str, status: u16, status_text: &str) -> (r: Result<
        (),
        ClaiError,
    >)
        ensures
            is_success(status) ==> r is Ok,
            !is_success(status) ==> (r matches Err(e) && e@ == upstream_status_error(
                operation@,
                status_text@,
            )),
    {
        if !status_is_success(status) {
            let mut m = String::from_str(operation);
            m.append(" returned error status: ");
            m.append(status_text);
            return Err(ClaiError::server(m));
        }
        Ok(())
    }

    /// The error for a request that could not be sent; `error_text` is the
    /// transport's message.
    pub fn network_error(operation: &str, error_text: String) -> (e: ClaiError)
        ensures
            e@ == ClaiErrorView::Network(error_text@),
    {
        ClaiError::Network(error_text)
    }

    /// The error for a reply body that could not be parsed; `error_text` is
    /// the transport's message.
    pub fn json_parse_error(operation: &str, error_text: String) -> (e: ClaiError)
        ensures
            e@ == ClaiErrorView::Network(error_text@),
    {
        ClaiError::Network(error_text)
    }

    /// The configuration, or the configuration error for a failed load.
    /// `loaded` is what reading the environment gave: the values, or the
    /// reader's message saying what was missing or malformed.
    pub fn load_config(loaded: Result<Config, String>) -> (r: Result<Config, ClaiError>)
        ensures
            loaded is Ok <==> r is Ok,
            loaded matches Ok(c) ==> (r matches Ok(d) && d == c),
            loaded matches Err(m) ==> (r matches Err(e) && e@ == ClaiErrorView::Config(
                "Failed to load configuration: "@ + m@,
            )),
    {
        match loaded {
            Ok(c) => Ok(c),
            Err(m) => {
                let mut t = String::from_str("Failed to load configuration: ");
                t.append(m.as_str());
                Err(ClaiError::config(t))
            },
        }
    }
}

} // verus!
