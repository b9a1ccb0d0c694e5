//! A minimal HTTP/1.1 server core, verified with Verus.
//!
//! The crate parses a single request line (method, path, optional query
//! string) out of a raw byte buffer, models responses as a status code plus
//! an optional body, and serializes them back to the wire format
//! `HTTP/1.1 <code> <reason>\r\n\r\n<body>`. The blocking socket loop that
//! feeds bytes in and writes bytes out lives outside the library; the
//! library covers everything that computes.

pub mod method;
pub mod query_string;
pub mod request;
pub mod response;
pub mod server;
pub mod status_code;
pub mod text;
pub mod website_handler;
