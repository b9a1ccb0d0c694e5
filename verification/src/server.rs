//! The per-connection pipeline: received bytes in, response text out.
//!
//! The blocking socket loop (accept, read, write, close) is an external
//! shell around this module: it reads each connection into a fixed buffer,
//! hands the bytes to `Server::handle_connection`, and writes the returned
//! text back. Each connection serves exactly one request/response pair;
//! there is no keep-alive. A single thread handles connections strictly one
//! after another — a deliberate limitation of the design, not an accident.

use vstd::prelude::*;

use crate::request::{ParseError, Request};
use crate::response::Response;
use crate::status_code::StatusCode;

verus! {

/// The pluggable capability that turns requests into responses. Exactly one
/// of the two methods is invoked per connection whose read succeeded.
pub trait Handler {
    /// Transform a parsed request into a response.
    fn handle_request(&mut self, request: &Request<'_>) -> Response;

    /// Fallback for a buffer that failed to parse. The default answers
    /// 400 Bad Request with no body; implementors may override it.
    fn handle_bad_request(&mut self, e: &ParseError) -> Response {
        Response::new(StatusCode::BadRequest, None)
    }
}

/// The server's configuration: the address the external shell listens on.
pub struct Server {
    addr: String,
}

impl Server {
    /// The configured listening address.
    pub closed spec fn spec_addr(self) -> Seq<char> {
        self.addr@
    }

    /// Remember the address to listen on.
    pub fn new(addr: String) -> (r: Server)
        ensures
            r.spec_addr() == addr@,
    {
        Server { addr }
    }

    /// The address this server was configured with.
    pub fn addr(&self) -> (r: &str)
        ensures
            r@ == self.spec_addr(),
    {
        self.addr.as_str()
    }

    /// One connection's whole computation: parse the received bytes,
    /// dispatch to the handler — or to its parse-failure fallback — and
    /// serialize the response. Whatever the handler answers, the output is
    /// the exact wire form of some response.
    pub fn handle_connection<H: Handler>(handler: &mut H, received: &[u8]) -> (out: String)
        ensures
            exists|resp: Response| out@ == resp.spec_output(),
    {
        let response = match Request::parse(received) {
            Ok(request) => handler.handle_request(&request),
            Err(e) => handler.handle_bad_request(&e),
        };
        let mut out = String::new();
        response.send(&mut out);
        proof {
            assert(out@ =~= response.spec_output());
        }
        out
    }
}

} // verus!
