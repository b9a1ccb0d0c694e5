//! Routing rules of the website handler: which file a request maps to and
//! what response the lookup's outcome owes.
//!
//! The handler serves files from a public directory. Reading the file —
//! and the security-relevant containment check that the resolved path stays
//! under the public root — is an external capability; this module decides
//! which file to ask for and how to answer once the content (or its
//! absence) is known.

use vstd::prelude::*;

use crate::method::Method;
use crate::response::Response;
use crate::status_code::StatusCode;
use crate::text::str_eq;

verus! {

/// What the routing rules decide for one request.
#[derive(Debug)]
pub enum Route {
    /// Serve this file with status 200 OK, whether or not it has content:
    /// a missing file still answers 200 with an empty response body.
    Fixed(String),
    /// Serve this file with 200 OK if it exists, else 404 Not Found.
    Lookup(String),
    /// Answer 404 Not Found without any lookup.
    Reject,
}

impl Route {
    /// The response owed once the file lookup for this route has come
    /// back. For `Reject` no lookup happens and `content` is ignored.
    pub fn respond(self, content: Option<String>) -> (r: Response)
        ensures
            self is Fixed ==> r.spec_status() == StatusCode::OK && r.spec_body()
                == content.deep_view(),
            self is Lookup && content is Some ==> r.spec_status() == StatusCode::OK
                && r.spec_body() == content.deep_view(),
            self is Lookup && content is None ==> r.spec_status() == StatusCode::NotFound
                && r.spec_body() is None,
            self is Reject ==> r.spec_status() == StatusCode::NotFound && r.spec_body() is None,
    {
        match self {
            Route::Fixed(_) => Response::new(StatusCode::OK, content),
            Route::Lookup(_) => match content {
                Some(body) => Response::new(StatusCode::OK, Some(body)),
                None => Response::new(StatusCode::NotFound, None),
            },
            Route::Reject => Response::new(StatusCode::NotFound, None),
        }
    }
}

/// The website handler's configuration: the directory files are served
/// from.
pub struct WebsiteHandler {
    public_path: String,
}

impl WebsiteHandler {
    /// The configured public directory.
    pub closed spec fn spec_public_path(self) -> Seq<char> {
        self.public_path@
    }

    /// Remember the public directory to serve from.
    pub fn new(public_path: String) -> (r: WebsiteHandler)
        ensures
            r.spec_public_path() == public_path@,
    {
        WebsiteHandler { public_path }
    }

    /// The public directory this handler was configured with.
    pub fn public_path(&self) -> (r: &str)
        ensures
            r@ == self.spec_public_path(),
    {
        self.public_path.as_str()
    }

    /// The routing rules: only GET is served; `/` maps to the index page,
    /// `/hello` to the hello page, and any other path names its own file.
    pub fn route(&self, method: &Method, path: &str) -> (r: Route)
        ensures
            *method != Method::GET ==> r is Reject,
            *method == Method::GET && path@ == "/"@ ==> (r matches Route::Fixed(f) && f@
                == "index.html"@),
            *method == Method::GET && path@ == "/hello"@ ==> (r matches Route::Fixed(f) && f@
                == "hello.html"@),
            *method == Method::GET && path@ != "/"@ && path@ != "/hello"@ ==> (r matches
                Route::Lookup(p) && p@ == path@),
    {
        proof {
            reveal_strlit("/");
            reveal_strlit("/hello");
            assert("/"@.len() != "/hello"@.len());
        }
        match method {
            Method::GET => {
                if str_eq(path, "/") {
                    Route::Fixed(String::from_str("index.html"))
                } else if str_eq(path, "/hello") {
                    Route::Fixed(String::from_str("hello.html"))
                } else {
                    Route::Lookup(String::from_str(path))
                }
            },
            _ => Route::Reject,
        }
    }

    /// The file a route's name resolves to on disk: the public directory,
    /// a slash, and the file's name. The external capability that reads it
    /// must still confirm that the resolved path stays under the public
    /// root before touching the file system.
    pub fn full_path(&self, file_path: &str) -> (r: String)
        ensures
            r@ == self.spec_public_path() + "/"@ + file_path@,
    {
        let mut out = self.public_path.clone();
        out.append("/");
        out.append(file_path);
        out
    }
}

} // verus!
