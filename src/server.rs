//! How the server answers a request.
//!
//! The connection loop lives with the program; this module decides, from the
//! bytes that came in, which page to send, with which status and after what
//! pause, and lays out the response text.
use crate::error::Result;
use crate::http::{request_from_buffer, Request, RequestView, StatusCode};
use vstd::prelude::*;
use vstd::string::StringExecFns;

verus! {

/// The server: it answers each connection on its own.
#[derive(Default)]
pub struct Server;

/// The pages the server can send.
#[derive(Debug, Clone, Copy, PartialEq, Eq, Structural)]
pub enum Page {
    Hello,
    NotFound,
}

/// How one request is answered.
#[derive(Debug, Clone, Copy, PartialEq, Eq, Structural)]
pub struct Reply {
    pub status: StatusCode,
    pub page: Page,
    /// Seconds to wait before answering.
    pub delay_secs: u64,
}

/// The seconds that `/sleep` waits.
pub const SLEEP_SECS: u64 = 5;

pub open spec fn root_path() -> Seq<char> {
    seq!['/']
}

pub open spec fn sleep_path() -> Seq<char> {
    seq!['/', 's', 'l', 'e', 'e', 'p']
}

/// The answer to a parsed request, or to one that did not parse.
pub open spec fn reply_of(r: core::result::Result<RequestView, crate::error::Error>) -> Reply {
    match r {
        Ok(v) => if v.uri == root_path() {
            Reply { status: StatusCode::Success, page: Page::Hello, delay_secs: 0 }
        } else if v.uri == sleep_path() {
            Reply { status: StatusCode::Success, page: Page::Hello, delay_secs: SLEEP_SECS }
        } else {
            Reply { status: StatusCode::NotFound, page: Page::NotFound, delay_secs: 0 }
        },
        Err(_) => Reply { status: StatusCode::NotFound, page: Page::NotFound, delay_secs: 0 },
    }
}

/// The decimal digits of `n`, most significant first.
pub open spec fn decimal(n: nat) -> Seq<char>
    decreases n,
{
    if n < 10 {
        seq![digit(n)]
    } else {
        decimal(n / 10).push(digit(n % 10))
    }
}

pub open spec fn digit(d: nat) -> char {
    ((48 + d) as u8) as char
}

pub open spec fn status_line_of(s: StatusCode) -> Seq<char> {
    match s {
        StatusCode::Success => "HTTP/1.1 200 OK"@,
        StatusCode::NotFound => "HTTP/1.1 404 NOT FOUND"@,
        StatusCode::InternalServerError => "HTTP/1.1 505 INTERNAL SERVER ERROR"@,
    }
}

/// The response: status line, content length header, empty line, contents.
pub open spec fn response_of(status: StatusCode, contents: Seq<char>, n_bytes: nat) -> Seq<
    char,
> {
    status_line_of(status) + "\r\nContent-Length: "@ + decimal(n_bytes) + "\r\n\r\n"@ + contents
}

fn decimal_chars(n: usize) -> (r: Vec<char>)
    ensures
        r@ == decimal(n as nat),
    decreases n,
{
    if n < 10 {
        let d = ((48 + n) as u8) as char;
        let mut v: Vec<char> = Vec::new();
        v.push(d);
        assert(v@ =~= seq![digit(n as nat)]);
        v
    } else {
        let mut v = decimal_chars(n / 10);
        let d = ((48 + n % 10) as u8) as char;
        v.push(d);
        v
    }
}

impl Page {
    /// The file that holds the page.
    pub fn filename(&self) -> (r: &'static str)
        ensures
            r@ == match self {
                Page::Hello => "hello.html"@,
                Page::NotFound => "404.html"@,
            },
    {
        match self {
            Page::Hello => "hello.html",
            Page::NotFound => "404.html",
        }
    }
}

impl Server {
    pub fn new() -> (r: Self) {
        Server
    }

    /// How to answer a request that parsed, or one that did not: the root
    /// and `/sleep` get the hello page (`/sleep` after a pause), every other
    /// URI and every malformed request the not-found page.
    pub fn reply_to(request: &Result<Request>) -> (r: Reply)
        requires
            request is Ok ==> request->Ok_0.wf(),
        ensures
            r == reply_of(
                match request {
                    Ok(req) => Ok(req.view()),
                    Err(e) => Err(*e),
                },
            ),
    {
        match request {
            Ok(req) => {
                let u = req.uri_chars();
                if u.len() == 1 && u[0] == '/' {
                    assert(u@ =~= root_path());
                    Reply { status: StatusCode::Success, page: Page::Hello, delay_secs: 0 }
                } else if u.len() == 6 && u[0] == '/' && u[1] == 's' && u[2] == 'l' && u[3] == 'e'
                    && u[4] == 'e' && u[5] == 'p' {
                    assert(u@ =~= sleep_path());
                    Reply { status: StatusCode::Success, page: Page::Hello, delay_secs: SLEEP_SECS }
                } else {
                    proof {
                        assert(root_path()[0] == '/');
                        let sp = sleep_path();
                        if u@ == sp {
                            assert(u@[1] == sp[1] && u@[2] == sp[2] && u@[3] == sp[3]);
                            assert(u@[4] == sp[4] && u@[5] == sp[5] && u@[0] == sp[0]);
                        }
                    }
                    Reply { status: StatusCode::NotFound, page: Page::NotFound, delay_secs: 0 }
                }
            },
            Err(_) => Reply { status: StatusCode::NotFound, page: Page::NotFound, delay_secs: 0 },
        }
    }

    /// How to answer the bytes read from a connection.
    pub fn reply_to_buffer(buffer: &[u8]) -> (r: Reply)
        ensures
            r == reply_of(request_from_buffer(buffer@)),
    {
        let request = Request::from_buffer(buffer);
        Self::reply_to(&request)
    }

    /// The response text for `reply`, with `contents` as its body.
    pub fn response_text(reply: &Reply, contents: &str) -> (r: String)
        ensures
            r@ == response_of(reply.status, contents@, contents.len() as nat),
    {
        let mut out = String::new();
        match reply.status {
            StatusCode::Success => out.append("HTTP/1.1 200 OK"),
            StatusCode::NotFound => out.append("HTTP/1.1 404 NOT FOUND"),
            StatusCode::InternalServerError => out.append("HTTP/1.1 505 INTERNAL SERVER ERROR"),
        }
        assert(out@ =~= status_line_of(reply.status));
        out.append("\r\nContent-Length: ");
        let digits = decimal_chars(contents.len());
        let digits = crate::http::string_from_chars(&digits);
        out.append(digits.as_str());
        out.append("\r\n\r\n");
        out.append(contents);
        out
    }
}

} // verus!
