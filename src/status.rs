use vstd::prelude::*;

verus! {

/// The process exit code owed for a response status under the given flags.
pub open spec fn exit_code_spec(status: u16, follow: bool, check_status: bool, download: bool) -> i32 {
    if !(check_status || download) {
        0
    } else if 300 <= status <= 399 && !follow {
        3
    } else if 400 <= status <= 499 {
        4
    } else if 500 <= status <= 599 {
        5
    } else {
        0
    }
}

/// Maps an HTTP status and the command-line flags to the process exit code.
pub fn exit_code(status: u16, follow: bool, check_status: bool, download: bool) -> (r: i32)
    ensures
        r == exit_code_spec(status, follow, check_status, download),
{
    if !(check_status || download) {
        0
    } else if 300 <= status && status <= 399 && !follow {
        3
    } else if 400 <= status && status <= 499 {
        4
    } else if 500 <= status && status <= 599 {
        5
    } else {
        0
    }
}

/// With status checks on, a success gives 0, an unfollowed redirect 3 and a client
/// error 4, whatever the redirect flag says where it does not matter; with checks
/// and downloads off, even a server error gives 0.
pub proof fn lemma_exit_code_examples(follow: bool)
    ensures
        exit_code_spec(200, follow, true, false) == 0,
        exit_code_spec(301, false, true, false) == 3,
        exit_code_spec(404, follow, true, false) == 4,
        exit_code_spec(503, follow, false, false) == 0,
{
}

/// A warning goes to the error stream when a redirect is passed through and the
/// status makes the exit code non-zero.
pub fn warn_on_redirect(is_redirect: bool, code: i32) -> (r: bool)
    ensures
        r == (is_redirect && code != 0),
{
    is_redirect && code != 0
}

} // verus!
