//! What can go wrong while a request is handled, and the text a client is
//! sent for it.

use vstd::prelude::*;
use vstd::string::*;
use vstd::utf8::encode_utf8;

verus! {

/// What is said of a request path that cannot be decoded.
pub const DECODE_FAILURE: &'static str = "the request path is not percent-encoded UTF-8";

/// What comes before the message of a failure that is reported as plain text.
pub const ERROR_PREFIX: &'static str = "Error: ";

/// What comes before the message of a listing that could not be rendered.
pub const RENDER_FAILURE_PREFIX: &'static str = "500 Internal server error: ";

/// A failure met while a request is handled. None of them ends the handling:
/// each becomes the body of an ordinary response.
#[derive(Debug, Clone)]
pub enum ServeError {
    /// The request path does not decode to UTF-8.
    Decode,
    /// The file system failed to read a file or a directory, with its message.
    Io(String),
    /// The listing template could not be rendered, with the renderer's message.
    Render(String),
}

/// The text sent to the client for a failure with the message `message`.
pub open spec fn error_text(message: Seq<char>) -> Seq<char> {
    ERROR_PREFIX@ + message
}

/// The text sent to the client for a listing that could not be rendered.
pub open spec fn render_failure_text(message: Seq<char>) -> Seq<char> {
    RENDER_FAILURE_PREFIX@ + message
}

impl ServeError {
    /// The message of this failure.
    pub open spec fn message_of(self) -> Seq<char> {
        match self {
            ServeError::Decode => DECODE_FAILURE@,
            ServeError::Io(m) => m@,
            ServeError::Render(m) => m@,
        }
    }

    /// The text sent to the client for this failure.
    pub open spec fn text_of(self) -> Seq<char> {
        match self {
            ServeError::Render(m) => render_failure_text(m@),
            _ => error_text(self.message_of()),
        }
    }

    /// The message of this failure.
    pub fn message(&self) -> (r: String)
        ensures
            r@ == self.message_of(),
    {
        match self {
            ServeError::Decode => DECODE_FAILURE.to_owned(),
            ServeError::Io(m) => m.clone(),
            ServeError::Render(m) => m.clone(),
        }
    }

    /// The body sent to the client for this failure: its text as UTF-8.
    pub fn body(&self) -> (r: Vec<u8>)
        ensures
            r@ == encode_utf8(self.text_of()),
            r@.len() > 0,
    {
        let mut text = match self {
            ServeError::Render(_) => RENDER_FAILURE_PREFIX.to_owned(),
            _ => ERROR_PREFIX.to_owned(),
        };
        let message = self.message();
        text.append(message.as_str());
        proof {
            reveal_strlit("Error: ");
            reveal_strlit("500 Internal server error: ");
            lemma_encoding_not_empty(text@);
        }
        text.as_str().as_bytes_vec()
    }
}

/// The UTF-8 encoding of a text that is not empty is not empty.
pub proof fn lemma_encoding_not_empty(s: Seq<char>)
    requires
        s.len() > 0,
    ensures
        encode_utf8(s).len() > 0,
{
}

} // verus!
