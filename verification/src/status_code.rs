//! The closed set of response status codes, with their numeric values and
//! fixed reason phrases.

use vstd::prelude::*;

verus! {

/// A response status. The set is fixed at compile time; each variant carries
/// a numeric value and a reason phrase used verbatim on the wire.
#[derive(Clone, Copy, Debug, PartialEq, Eq, Structural)]
pub enum StatusCode {
    OK,
    Created,
    BadRequest,
    Unauthorized,
    NotFound,
    MethodNotAllowed,
    InternalServerError,
}

/// The numeric value of each status.
pub open spec fn spec_code(s: StatusCode) -> int {
    match s {
        StatusCode::OK => 200,
        StatusCode::Created => 201,
        StatusCode::BadRequest => 400,
        StatusCode::Unauthorized => 401,
        StatusCode::NotFound => 404,
        StatusCode::MethodNotAllowed => 405,
        StatusCode::InternalServerError => 500,
    }
}

/// The decimal spelling of each status's numeric value, as it appears in the
/// serialized status line.
pub open spec fn spec_code_text(s: StatusCode) -> Seq<char> {
    match s {
        StatusCode::OK => "200"@,
        StatusCode::Created => "201"@,
        StatusCode::BadRequest => "400"@,
        StatusCode::Unauthorized => "401"@,
        StatusCode::NotFound => "404"@,
        StatusCode::MethodNotAllowed => "405"@,
        StatusCode::InternalServerError => "500"@,
    }
}

/// The fixed reason phrase of each status.
pub open spec fn spec_reason(s: StatusCode) -> Seq<char> {
    match s {
        StatusCode::OK => "OK"@,
        StatusCode::Created => "Created"@,
        StatusCode::BadRequest => "Bad Request"@,
        StatusCode::Unauthorized => "Unauthorized"@,
        StatusCode::NotFound => "Not Found"@,
        StatusCode::MethodNotAllowed => "Method Not Allowed"@,
        StatusCode::InternalServerError => "Internal Server Error"@,
    }
}

impl StatusCode {
    /// The numeric value, e.g. 200 for `OK`.
    pub fn code(&self) -> (r: u16)
        ensures
            r == spec_code(*self),
    {
        match self {
            StatusCode::OK => 200,
            StatusCode::Created => 201,
            StatusCode::BadRequest => 400,
            StatusCode::Unauthorized => 401,
            StatusCode::NotFound => 404,
            StatusCode::MethodNotAllowed => 405,
            StatusCode::InternalServerError => 500,
        }
    }

    /// The decimal spelling of the numeric value.
    pub fn code_text(&self) -> (r: &str)
        ensures
            r@ == spec_code_text(*self),
    {
        match self {
            StatusCode::OK => "200",
            StatusCode::Created => "201",
            StatusCode::BadRequest => "400",
            StatusCode::Unauthorized => "401",
            StatusCode::NotFound => "404",
            StatusCode::MethodNotAllowed => "405",
            StatusCode::InternalServerError => "500",
        }
    }

    /// The fixed reason phrase, e.g. `OK` for 200.
    pub fn reason_phrase(&self) -> (r: &str)
        ensures
            r@ == spec_reason(*self),
    {
        match self {
            StatusCode::OK => "OK",
            StatusCode::Created => "Created",
            StatusCode::BadRequest => "Bad Request",
            StatusCode::Unauthorized => "Unauthorized",
            StatusCode::NotFound => "Not Found",
            StatusCode::MethodNotAllowed => "Method Not Allowed",
            StatusCode::InternalServerError => "Internal Server Error",
        }
    }
}

} // verus!
