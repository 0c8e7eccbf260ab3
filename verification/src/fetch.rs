//! The decisions around the authenticated page fetch: the fixed request
//! headers, and the rule that any non-success status is a hard failure
//! carrying the status code.

use vstd::prelude::*;
use vstd::string::StringExecFns;

verus! {

/// A failed fetch: the response carried a non-success status code.
#[derive(Clone, Copy, Debug, PartialEq, Eq, Structural)]
pub enum FetchError {
    Status(u16),
}

/// The success range of HTTP status codes.
pub open spec fn is_success_status(status: u16) -> bool {
    200 <= status < 300
}

/// Accepts a response exactly when its status is a success status, and
/// otherwise fails carrying that status code.
pub fn classify_status(status: u16) -> (r: Result<(), FetchError>)
    ensures
        is_success_status(status) <==> r is Ok,
        !is_success_status(status) ==> r == Err::<(), FetchError>(FetchError::Status(status)),
{
    if 200 <= status && status < 300 {
        Ok(())
    } else {
        Err(FetchError::Status(status))
    }
}

/// The headers of every request to the site: a fixed desktop user agent,
/// gzip accepted, the supplied cookie (possibly empty), and the referer
/// pinned to the site's origin.
pub fn request_headers(cookie: String) -> (r: Vec<(String, String)>)
    ensures
        r@.len() == 4,
        r@[0].0@ == "User-Agent"@,
        r@[0].1@ == "Mozilla/5.0 (Windows NT 10.0; Win64; x64) AppleWebKit/537.36"@,
        r@[1].0@ == "Accept-Encoding"@,
        r@[1].1@ == "gzip"@,
        r@[2].0@ == "Cookie"@,
        r@[2].1@ == cookie@,
        r@[3].0@ == "Referer"@,
        r@[3].1@ == "https://www.bilibili.com/"@,
{
    let mut v: Vec<(String, String)> = Vec::new();
    v.push(
        (
            "User-Agent".to_owned(),
            "Mozilla/5.0 (Windows NT 10.0; Win64; x64) AppleWebKit/537.36".to_owned(),
        ),
    );
    v.push(("Accept-Encoding".to_owned(), "gzip".to_owned()));
    v.push(("Cookie".to_owned(), cookie));
    v.push(("Referer".to_owned(), "https://www.bilibili.com/".to_owned()));
    v
}

} // verus!
