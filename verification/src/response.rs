//! The response to a request: its headers and its body.

use vstd::prelude::*;
use vstd::string::*;

verus! {

/// The status of every response. A failure is told in the body, not here.
pub const STATUS_OK: u16 = 200;

/// How the server names itself: its product name and its version.
pub const SERVER_VERSION: &'static str = "dir_server/0.1.0";

/// The origin allowed where cross-origin access is on: any.
pub const ANY_ORIGIN: &'static str = "*";

/// The headers of a response.
#[derive(Debug, Clone)]
pub struct ResponseHeaders {
    /// `Content-Type`.
    pub content_type: String,
    /// `Content-Length`: the number of bytes in the body.
    pub content_length: u64,
    /// `Server`.
    pub server: String,
    /// `Access-Control-Allow-Origin`, sent only where cross-origin access is on.
    pub access_control_allow_origin: Option<String>,
    /// `Access-Control-Allow-Headers`, sent only where cross-origin access is on.
    pub access_control_allow_headers: Option<Vec<String>>,
}

/// What `ResponseHeaders` hold.
pub ghost struct HeadersView {
    pub content_type: Seq<char>,
    pub content_length: int,
    pub server: Seq<char>,
    pub access_control_allow_origin: Option<Seq<char>>,
    pub access_control_allow_headers: Option<Seq<Seq<char>>>,
}

/// What each of `names` holds.
pub open spec fn name_views(names: Seq<String>) -> Seq<Seq<char>> {
    names.map_values(|s: String| s@)
}

impl View for ResponseHeaders {
    type V = HeadersView;

    open spec fn view(&self) -> HeadersView {
        HeadersView {
            content_type: self.content_type@,
            content_length: self.content_length as int,
            server: self.server@,
            access_control_allow_origin: match self.access_control_allow_origin {
                Some(origin) => Some(origin@),
                None => None,
            },
            access_control_allow_headers: match self.access_control_allow_headers {
                Some(names) => Some(name_views(names@)),
                None => None,
            },
        }
    }
}

/// A response, whole: nothing of it is sent in pieces.
#[derive(Debug, Clone)]
pub struct Response {
    /// The status code.
    pub status: u16,
    /// The headers.
    pub headers: ResponseHeaders,
    /// The body.
    pub body: Vec<u8>,
}

/// What a `Response` holds.
pub ghost struct ResponseView {
    pub status: int,
    pub headers: HeadersView,
    pub body: Seq<u8>,
}

impl View for Response {
    type V = ResponseView;

    open spec fn view(&self) -> ResponseView {
        ResponseView { status: self.status as int, headers: self.headers@, body: self.body@ }
    }
}

/// The request headers that a cross-origin client may send.
pub open spec fn allowed_headers() -> Seq<Seq<char>> {
    seq!["Range"@, "Content-Type"@, "Accept"@, "Origin"@]
}

/// The headers of a response whose body has `body_len` bytes of the type
/// `content_type`, with cross-origin access on or off.
pub open spec fn headers_for(content_type: Seq<char>, body_len: int, cors: bool) -> HeadersView {
    HeadersView {
        content_type,
        content_length: body_len,
        server: SERVER_VERSION@,
        access_control_allow_origin: if cors {
            Some(ANY_ORIGIN@)
        } else {
            None
        },
        access_control_allow_headers: if cors {
            Some(allowed_headers())
        } else {
            None
        },
    }
}

/// The response that carries `body` as `content_type`.
pub open spec fn assembled(body: Seq<u8>, content_type: Seq<char>, cors: bool) -> ResponseView {
    ResponseView {
        status: STATUS_OK as int,
        headers: headers_for(content_type, body.len() as int, cors),
        body,
    }
}

/// The names of the request headers that a cross-origin client may send.
pub fn allowed_header_names() -> (r: Vec<String>)
    ensures
        name_views(r@) == allowed_headers(),
{
    let mut names: Vec<String> = Vec::new();
    names.push("Range".to_owned());
    names.push("Content-Type".to_owned());
    names.push("Accept".to_owned());
    names.push("Origin".to_owned());
    assert(name_views(names@) == allowed_headers());
    names
}

/// Puts a response together: status 200, the body as it is, its type, its
/// exact length, the server's name and, where `cors` is on, the two
/// cross-origin headers. With `cors` off neither of them is set.
pub fn assemble(body: Vec<u8>, content_type: String, cors: bool) -> (r: Response)
    ensures
        r@ == assembled(body@, content_type@, cors),
        r.body@ == body@,
        r.headers.content_length == r.body@.len(),
        cors ==> r.headers.access_control_allow_origin is Some
            && r.headers.access_control_allow_headers is Some,
        !cors ==> r.headers.access_control_allow_origin is None
            && r.headers.access_control_allow_headers is None,
{
    let content_length = body.len() as u64;
    let headers = if cors {
        ResponseHeaders {
            content_type,
            content_length,
            server: SERVER_VERSION.to_owned(),
            access_control_allow_origin: Some(ANY_ORIGIN.to_owned()),
            access_control_allow_headers: Some(allowed_header_names()),
        }
    } else {
        ResponseHeaders {
            content_type,
            content_length,
            server: SERVER_VERSION.to_owned(),
            access_control_allow_origin: None,
            access_control_allow_headers: None,
        }
    };
    Response { status: STATUS_OK, headers, body }
}

} // verus!
