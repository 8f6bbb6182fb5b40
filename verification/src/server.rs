//! The server's options and the handling of one request.
//!
//! Handling a request takes two calls. `resolve` says which path in the file
//! system the request names; the caller reads what is there; `handle_request`
//! then makes the response from what was read.

use vstd::prelude::*;
use vstd::string::*;
use vstd::utf8::encode_utf8;
use crate::content_type::{
    ascii_lowercase, content_type, content_type_of, extension_mime, Target, TEXT_HTML_UTF_8,
    TEXT_PLAIN,
};
use crate::error::{error_text, lemma_encoding_not_empty, ServeError};
use crate::listing::{child_views, handle_dir, listing_of, Child, ChildView};
use crate::paths::{extension_of, joined};
use crate::resolve::{decoded_path, resolve, RequestContext};
use crate::response::{
    allowed_headers, assemble, assembled, Response, ResponseView, ANY_ORIGIN, STATUS_OK,
};

verus! {

/// The host that the server listens on unless told otherwise.
pub const DEFAULT_HOST: &'static str = "127.0.0.1";

/// The port that the server listens on unless told otherwise.
pub const DEFAULT_PORT: u16 = 8888;

/// What the server is started with. It is never changed afterwards.
#[derive(Debug, Copy, Clone)]
pub struct ServerOptions {
    /// The host to listen on.
    pub host: &'static str,
    /// The port to listen on, from 1 to 65535.
    pub port: u16,
    /// Whether responses carry the headers for cross-origin access.
    pub cors: bool,
}

impl ServerOptions {
    /// Whether the options can be served with: the port is not 0.
    pub open spec fn valid(self) -> bool {
        self.port >= 1
    }

    /// Whether the options can be served with.
    pub fn is_valid(&self) -> (r: bool)
        ensures
            r == self.valid(),
    {
        self.port >= 1
    }
}

impl Default for ServerOptions {
    /// The local host, port 8888, no cross-origin access.
    fn default() -> (r: Self)
        ensures
            r.host@ == DEFAULT_HOST@,
            r.port == DEFAULT_PORT,
            !r.cors,
            r.valid(),
    {
        ServerOptions { host: DEFAULT_HOST, port: DEFAULT_PORT, cors: false }
    }
}

/// The decimal digit `d` as a character.
pub open spec fn digit_char(d: int) -> char {
    if d == 0 {
        '0'
    } else if d == 1 {
        '1'
    } else if d == 2 {
        '2'
    } else if d == 3 {
        '3'
    } else if d == 4 {
        '4'
    } else if d == 5 {
        '5'
    } else if d == 6 {
        '6'
    } else if d == 7 {
        '7'
    } else if d == 8 {
        '8'
    } else {
        '9'
    }
}

/// `n` written in decimal, without leading zeros.
pub open spec fn decimal(n: nat) -> Seq<char>
    decreases n,
{
    if n < 10 {
        seq![digit_char(n as int)]
    } else {
        decimal(n / 10).push(digit_char((n % 10) as int))
    }
}

/// The address that a server with `options` listens on: host, colon, port.
pub open spec fn address_of(options: ServerOptions) -> Seq<char> {
    options.host@ + seq![':'] + decimal(options.port as nat)
}

/// The decimal digit `d` as text.
fn digit_str(d: u16) -> (r: &'static str)
    requires
        d < 10,
    ensures
        r@ == seq![digit_char(d as int)],
{
    proof {
        reveal_strlit("0");
        reveal_strlit("1");
        reveal_strlit("2");
        reveal_strlit("3");
        reveal_strlit("4");
        reveal_strlit("5");
        reveal_strlit("6");
        reveal_strlit("7");
        reveal_strlit("8");
        reveal_strlit("9");
    }
    let r = if d == 0 {
        "0"
    } else if d == 1 {
        "1"
    } else if d == 2 {
        "2"
    } else if d == 3 {
        "3"
    } else if d == 4 {
        "4"
    } else if d == 5 {
        "5"
    } else if d == 6 {
        "6"
    } else if d == 7 {
        "7"
    } else if d == 8 {
        "8"
    } else {
        "9"
    };
    assert(r@ == seq![digit_char(d as int)]);
    r
}

/// Appends `n` in decimal to `text`.
fn append_decimal(text: &mut String, n: u16)
    ensures
        final(text)@ == old(text)@ + decimal(n as nat),
    decreases n,
{
    if n >= 10 {
        append_decimal(text, n / 10);
    }
    text.append(digit_str(n % 10));
    proof {
        if n >= 10 {
            assert(old(text)@ + decimal((n / 10) as nat) + seq![digit_char((n % 10) as int)]
                == old(text)@ + decimal(n as nat));
        }
    }
}

/// The server: its options, and nothing that changes.
#[derive(Debug)]
pub struct MyServer {
    options: ServerOptions,
}

impl MyServer {
    /// The options that the server was made with.
    pub closed spec fn options_of(self) -> ServerOptions {
        self.options
    }

    /// A server with `options`.
    pub fn new(options: ServerOptions) -> (r: Self)
        ensures
            r.options_of() == options,
    {
        Self { options }
    }

    /// The options that the server was made with.
    pub fn options(&self) -> (r: ServerOptions)
        ensures
            r == self.options_of(),
    {
        self.options
    }

    /// The address to listen on: the host, a colon and the port in decimal.
    pub fn address(&self) -> (r: String)
        ensures
            r@ == address_of(self.options_of()),
    {
        let mut text = self.options.host.to_owned();
        proof {
            reveal_strlit(":");
        }
        text.append(":");
        append_decimal(&mut text, self.options.port);
        text
    }

    /// The service that handles the requests of one connection.
    pub fn service(&self) -> (r: MyService)
        ensures
            r.options_of() == self.options_of(),
    {
        MyService::new(self.options)
    }
}

/// What the file system gave for a resolved path.
#[derive(Debug)]
pub enum Fetched {
    /// The path is a directory: its children in the order the file system
    /// gave them, or the message of the failure to read them.
    Directory(Result<Vec<Child>, String>),
    /// The path is no directory: the bytes of the file, or the message of the
    /// failure to read it, as when nothing is there.
    File(Result<Vec<u8>, String>),
}

/// What a `Fetched` holds.
pub ghost enum FetchedView {
    Directory(Result<Seq<ChildView>, Seq<char>>),
    File(Result<Seq<u8>, Seq<char>>),
}

impl View for Fetched {
    type V = FetchedView;

    open spec fn view(&self) -> FetchedView {
        match self {
            Fetched::Directory(Ok(children)) => FetchedView::Directory(Ok(child_views(children@))),
            Fetched::Directory(Err(message)) => FetchedView::Directory(Err(message@)),
            Fetched::File(Ok(bytes)) => FetchedView::File(Ok(bytes@)),
            Fetched::File(Err(message)) => FetchedView::File(Err(message@)),
        }
    }
}

/// The response that tells of a failure with the message `message`: its text
/// as the body, typed as plain text.
pub open spec fn failure_response(message: Seq<char>, cors: bool) -> ResponseView {
    assembled(encode_utf8(error_text(message)), TEXT_PLAIN@, cors)
}

/// The response to the request path `raw` under `root`, where `fetched` is
/// what the file system gave for the resolved path.
///
/// A path that does not decode, a directory that cannot be read and a file
/// that cannot be read each give a failure response. A directory gives its
/// listing as HTML, and a file its bytes, typed by its extension.
pub open spec fn response_of(
    cors: bool,
    root: Seq<char>,
    raw: Seq<char>,
    fetched: FetchedView,
) -> ResponseView {
    match decoded_path(raw) {
        None => failure_response(ServeError::Decode.message_of(), cors),
        Some(rel) => match fetched {
            FetchedView::Directory(Ok(children)) => assembled(
                listing_of(root, rel, children),
                TEXT_HTML_UTF_8@,
                cors,
            ),
            FetchedView::Directory(Err(message)) => failure_response(message, cors),
            FetchedView::File(Ok(bytes)) => assembled(
                bytes,
                content_type_of(Target::File, joined(root, rel)),
                cors,
            ),
            FetchedView::File(Err(message)) => failure_response(message, cors),
        },
    }
}

/// The handler of the requests of one connection.
#[derive(Debug)]
pub struct MyService {
    options: ServerOptions,
}

impl MyService {
    /// The options that the service was made with.
    pub closed spec fn options_of(self) -> ServerOptions {
        self.options
    }

    /// A service with `options`.
    pub fn new(options: ServerOptions) -> (r: Self)
        ensures
            r.options_of() == options,
    {
        Self { options }
    }

    /// The options that the service was made with.
    pub fn options(&self) -> (r: ServerOptions)
        ensures
            r == self.options_of(),
    {
        self.options
    }

    /// The first step of a request: the path in the file system that
    /// `raw_path` names under `root`. The caller reads what is there and hands
    /// it to `handle_request`. Where this fails, nothing is to be read, and
    /// `reject` makes the response.
    pub fn resolve(&self, root: &str, raw_path: &str) -> (r: Result<RequestContext, ServeError>)
        ensures
            match r {
                Ok(context) => context.resolves(root@, raw_path@),
                Err(e) => decoded_path(raw_path@) is None && e is Decode,
            },
    {
        resolve(root, raw_path)
    }

    /// The response that tells the client of `error`.
    pub fn reject(&self, error: &ServeError) -> (r: Response)
        ensures
            r@ == assembled(encode_utf8(error.text_of()), TEXT_PLAIN@, self.options_of().cors),
            r.headers.content_length == r.body@.len(),
            r.body@.len() > 0,
    {
        assemble(error.body(), TEXT_PLAIN.to_owned(), self.options.cors)
    }

    /// The response to the request path `raw_path` under `root`, where
    /// `fetched` is what the file system gave for the path that `resolve`
    /// named. Where the path does not resolve, `fetched` is not looked at.
    ///
    /// Every request gets a whole response with status 200: a failure is told
    /// in the body, as plain text.
    pub fn handle_request(&self, root: &str, raw_path: &str, fetched: Fetched) -> (r: Response)
        ensures
            r@ == response_of(self.options_of().cors, root@, raw_path@, fetched@),
            r.status == STATUS_OK,
            r.headers.content_length == r.body@.len(),
    {
        let cors = self.options.cors;
        let context = match resolve(root, raw_path) {
            Ok(context) => context,
            Err(e) => {
                return self.reject(&e);
            },
        };
        match fetched {
            Fetched::Directory(Ok(children)) => {
                let body = handle_dir(root, context.relative.as_str(), &children);
                assemble(body, content_type(Target::Directory, context.resolved.as_str()), cors)
            },
            Fetched::File(Ok(bytes)) => {
                assemble(bytes, content_type(Target::File, context.resolved.as_str()), cors)
            },
            Fetched::Directory(Err(message)) => self.reject(&ServeError::Io(message)),
            Fetched::File(Err(message)) => self.reject(&ServeError::Io(message)),
        }
    }
}

/// The `Content-Length` of every response is the exact length of its body.
pub proof fn lemma_content_length_exact(
    cors: bool,
    root: Seq<char>,
    raw: Seq<char>,
    fetched: FetchedView,
)
    ensures
        response_of(cors, root, raw, fetched).headers.content_length == response_of(
            cors,
            root,
            raw,
            fetched,
        ).body.len(),
        response_of(cors, root, raw, fetched).status == 200,
{
}

/// A request that resolves to a directory whose children could be read is
/// answered as `text/html; charset=utf-8`, with cross-origin access on or
/// off.
pub proof fn lemma_directory_is_html(
    cors: bool,
    root: Seq<char>,
    raw: Seq<char>,
    children: Seq<ChildView>,
)
    requires
        decoded_path(raw) is Some,
    ensures
        response_of(cors, root, raw, FetchedView::Directory(Ok(children))).headers.content_type
            == TEXT_HTML_UTF_8@,
{
}

/// A file whose path has no extension, or one that the extension table does
/// not know, is answered as `text/plain`.
pub proof fn lemma_unknown_extension_is_plain(
    cors: bool,
    root: Seq<char>,
    raw: Seq<char>,
    bytes: Seq<u8>,
)
    requires
        decoded_path(raw) matches Some(rel) && (match extension_of(joined(root, rel)) {
            Some(ext) => extension_mime(ascii_lowercase(ext)) is None,
            None => true,
        }),
    ensures
        response_of(cors, root, raw, FetchedView::File(Ok(bytes))).headers.content_type
            == TEXT_PLAIN@,
{
}

/// With cross-origin access off, no response carries a cross-origin header;
/// with it on, every response allows any origin and the request headers
/// `Range`, `Content-Type`, `Accept` and `Origin`.
pub proof fn lemma_cors_toggles(cors: bool, root: Seq<char>, raw: Seq<char>, fetched: FetchedView)
    ensures
        !cors ==> response_of(cors, root, raw, fetched).headers.access_control_allow_origin
            is None && response_of(cors, root, raw, fetched).headers.access_control_allow_headers
            is None,
        cors ==> response_of(cors, root, raw, fetched).headers.access_control_allow_origin
            == Some(ANY_ORIGIN@) && response_of(
            cors,
            root,
            raw,
            fetched,
        ).headers.access_control_allow_headers == Some(allowed_headers()),
{
}

/// A file that cannot be read, as when nothing is at the path, still gets a
/// whole response: a body that is not empty, its exact length, and the type
/// `text/plain`. The same holds of a path that does not decode and of a
/// directory that cannot be read.
pub proof fn lemma_failure_is_contained(
    cors: bool,
    root: Seq<char>,
    raw: Seq<char>,
    fetched: FetchedView,
)
    requires
        decoded_path(raw) is None || fetched is Directory && fetched->Directory_0 is Err
            || fetched is File && fetched->File_0 is Err,
    ensures
        response_of(cors, root, raw, fetched).body.len() > 0,
        response_of(cors, root, raw, fetched).headers.content_length == response_of(
            cors,
            root,
            raw,
            fetched,
        ).body.len(),
        response_of(cors, root, raw, fetched).headers.content_type == TEXT_PLAIN@,
        response_of(cors, root, raw, fetched).status == 200,
{
    reveal_strlit("Error: ");
    let message = if decoded_path(raw) is None {
        ServeError::Decode.message_of()
    } else if fetched is Directory {
        fetched->Directory_0->Err_0
    } else {
        fetched->File_0->Err_0
    };
    lemma_encoding_not_empty(error_text(message));
}

} // verus!
