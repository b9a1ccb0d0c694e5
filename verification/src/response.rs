//! The response model: a status code plus an optional body, serialized as
//! `HTTP/1.1 <code> <reason>\r\n\r\n<body>`.
//!
//! No headers (such as Content-Length or Content-Type) are emitted; that is
//! a deliberate minimalism of the wire format, not an omission.

use vstd::prelude::*;

use crate::status_code::{spec_code_text, spec_reason, StatusCode};

verus! {

/// A response to a single request. The body is owned: a response is built
/// after parsing completes and outlives the per-connection scratch buffer.
#[derive(Debug)]
pub struct Response {
    status_code: StatusCode,
    body: Option<String>,
}

impl Response {
    /// The status this response carries.
    pub closed spec fn spec_status(self) -> StatusCode {
        self.status_code
    }

    /// The body this response carries, if any, as a character sequence.
    pub closed spec fn spec_body(self) -> Option<Seq<char>> {
        match self.body {
            Some(b) => Some(b@),
            None => None,
        }
    }

    /// The exact character sequence this response serializes to:
    /// the status line, a blank line, then the body (or nothing).
    pub open spec fn spec_output(self) -> Seq<char> {
        "HTTP/1.1 "@ + spec_code_text(self.spec_status()) + " "@ + spec_reason(self.spec_status())
            + "\r\n\r\n"@ + match self.spec_body() {
            Some(b) => b,
            None => Seq::<char>::empty(),
        }
    }

    /// Pure construction: any status/body combination is legal, including a
    /// body on a non-2xx status.
    pub fn new(status_code: StatusCode, body: Option<String>) -> (r: Response)
        ensures
            r.spec_status() == status_code,
            r.spec_body() == body.deep_view(),
    {
        Response { status_code, body }
    }

    /// The serialized wire form of this response.
    pub fn serialize(&self) -> (r: String)
        ensures
            r@ == self.spec_output(),
    {
        let mut out = String::from_str("HTTP/1.1 ");
        out.append(self.status_code.code_text());
        out.append(" ");
        out.append(self.status_code.reason_phrase());
        out.append("\r\n\r\n");
        match &self.body {
            Some(b) => out.append(b.as_str()),
            None => {},
        }
        proof {
            assert(out@ =~= self.spec_output());
        }
        out
    }

    /// Serialize this response and append it to `sink`; the caller hands the
    /// accumulated characters to whatever transport it writes.
    pub fn send(&self, sink: &mut String)
        ensures
            final(sink)@ == old(sink)@ + self.spec_output(),
    {
        let data = self.serialize();
        sink.append(data.as_str());
    }
}

} // verus!
