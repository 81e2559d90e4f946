//! The toy web server's routing table and response framing. Reading the
//! request and writing the response are the caller's business; what to serve
//! for which request line, and how a response is laid out, is decided here.

use crate::arith::{decimal_digits, u64_to_string};
use crate::text::str_eq;
use vstd::prelude::*;
use vstd::string::StringExecFns;

verus! {

/// What to do with one request: the status line to answer with, the file
/// whose contents to serve, and whether to stall before answering.
pub struct RoutePlan {
    pub status_line: &'static str,
    pub filename: &'static str,
    pub slow: bool,
}

/// Maps a request line to the plan for answering it: the root path is
/// served straight away, the sleep path is served after a deliberate delay,
/// and everything else is answered with the not-found page.
pub fn route(req_line: &str) -> (r: RoutePlan)
    ensures
        req_line@ == "GET / HTTP/1.1"@ ==> r.status_line@ == "HTTP/1.1 200 OK"@ && r.filename@
            == "hello.html"@ && !r.slow,
        req_line@ == "GET /sleep HTTP/1.1"@ ==> r.status_line@ == "HTTP/1.1 200 0K"@
            && r.filename@ == "hello.html"@ && r.slow,
        req_line@ != "GET / HTTP/1.1"@ && req_line@ != "GET /sleep HTTP/1.1"@
            ==> r.status_line@ == "HTTP/1.1 404 NOT FOUND"@ && r.filename@ == "404.html"@
            && !r.slow,
{
    proof {
        // The two served request lines differ, so at most one branch's
        // premise can hold.
        reveal_strlit("GET / HTTP/1.1");
        reveal_strlit("GET /sleep HTTP/1.1");
        assert("GET / HTTP/1.1"@.len() != "GET /sleep HTTP/1.1"@.len());
    }
    if str_eq(req_line, "GET / HTTP/1.1") {
        RoutePlan { status_line: "HTTP/1.1 200 OK", filename: "hello.html", slow: false }
    } else if str_eq(req_line, "GET /sleep HTTP/1.1") {
        RoutePlan { status_line: "HTTP/1.1 200 0K", filename: "hello.html", slow: true }
    } else {
        RoutePlan { status_line: "HTTP/1.1 404 NOT FOUND", filename: "404.html", slow: false }
    }
}

/// Frames one response: the status line, a content-length header counting
/// the body's bytes, a blank line, and the body.
pub fn build_response(status_line: &str, contents: &str) -> (r: String)
    ensures
        r@ == status_line@ + "\r\nContent-Length: "@ + decimal_digits(contents.len() as nat)
            + "\r\n\r\n"@ + contents@,
{
    let n = contents.len();
    let mut r = status_line.to_owned();
    r.append("\r\nContent-Length: ");
    let len_str = u64_to_string(n as u64);
    r.append(len_str.as_str());
    r.append("\r\n\r\n");
    r.append(contents);
    r
}

} // verus!
