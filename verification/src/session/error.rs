//! What can go wrong in a session.

use vstd::prelude::*;
use vstd::string::*;

use crate::protocol::error;
use crate::protocol::error::{ProtocolError, ProtocolErrorView};
use crate::text;

verus! {

/// `std::io::Error`, the failure of an operation on a socket.
#[verifier::external_type_specification]
#[verifier::external_body]
pub struct ExIoError(std::io::Error);

/// A failure of the handshake or of a session.
#[derive(Debug)]
pub enum SessionError {
    /// A request that does not ask for a CONNECT-UDP tunnel.
    InvalidHandshake { reason: &'static str },
    /// A request path that names no target.
    ParseError(String),
    /// A failed operation on the UDP socket.
    IoError(std::io::Error),
    /// A violation of the wire format.
    ProtocolError(ProtocolError),
    /// The HTTP/3 side no longer takes datagrams.
    ChannelClosed,
}

/// A `SessionError` as a mathematical value.
pub enum SessionErrorView {
    InvalidHandshake { reason: Seq<char> },
    ParseError(Seq<char>),
    IoError(std::io::Error),
    ProtocolError(ProtocolErrorView),
    ChannelClosed,
}

impl View for SessionError {
    type V = SessionErrorView;

    open spec fn view(&self) -> SessionErrorView {
        match *self {
            SessionError::InvalidHandshake { reason } => SessionErrorView::InvalidHandshake {
                reason: reason@,
            },
            SessionError::ParseError(words) => SessionErrorView::ParseError(words@),
            SessionError::IoError(e) => SessionErrorView::IoError(e),
            SessionError::ProtocolError(e) => SessionErrorView::ProtocolError(e@),
            SessionError::ChannelClosed => SessionErrorView::ChannelClosed,
        }
    }
}

/// Whether `detail` is what the system says of a failed socket operation.
pub open spec fn is_io_error_text(cause: std::io::Error, detail: Seq<char>) -> bool {
    exists|s: String| #[trigger]
        to_string_from_display_ensures::<std::io::Error>(&cause, s) && s@ == detail
}

/// Whether `words` are the words for an error. Those for a failed socket operation end
/// with what the system says of it.
pub open spec fn is_session_error_text(e: SessionErrorView, words: Seq<char>) -> bool {
    match e {
        SessionErrorView::InvalidHandshake { reason } => words == "invalid CONNECT-UDP handshake: "@
            + reason,
        SessionErrorView::ParseError(detail) => words == "path parse error: "@ + detail,
        SessionErrorView::IoError(cause) => exists|detail: Seq<char>| #[trigger]
            is_io_error_text(cause, detail) && words == "io error: "@ + detail,
        SessionErrorView::ProtocolError(cause) => words == "protocol error: "@
            + error::protocol_error_text(cause),
        SessionErrorView::ChannelClosed => words == "session channel closed unexpectedly"@,
    }
}

impl SessionError {
    /// The words for this error.
    pub fn to_string(&self) -> (s: String)
        ensures
            is_session_error_text(self@, s@),
    {
        match self {
            SessionError::InvalidHandshake { reason } => {
                let s: String = text::concat2("invalid CONNECT-UDP handshake: ", reason);
                s
            },
            SessionError::ParseError(detail) => {
                let s: String = text::concat2("path parse error: ", detail.as_str());
                s
            },
            SessionError::IoError(cause) => {
                let detail: String = cause.to_string();
                let s: String = text::concat2("io error: ", detail.as_str());
                assert(to_string_from_display_ensures::<std::io::Error>(cause, detail));
                assert(is_io_error_text(*cause, detail@));
                assert(self@->IoError_0 == *cause);
                s
            },
            SessionError::ProtocolError(cause) => {
                let s: String = text::concat2("protocol error: ", cause.to_string().as_str());
                s
            },
            SessionError::ChannelClosed => "session channel closed unexpectedly".to_owned(),
        }
    }
}

impl From<ProtocolError> for SessionError {
    fn from(e: ProtocolError) -> (r: SessionError) {
        SessionError::ProtocolError(e)
    }
}

impl vstd::std_specs::convert::FromSpecImpl<ProtocolError> for SessionError {
    open spec fn obeys_from_spec() -> bool {
        true
    }

    open spec fn from_spec(e: ProtocolError) -> SessionError {
        SessionError::ProtocolError(e)
    }
}

impl From<std::io::Error> for SessionError {
    fn from(e: std::io::Error) -> (r: SessionError) {
        SessionError::IoError(e)
    }
}

impl vstd::std_specs::convert::FromSpecImpl<std::io::Error> for SessionError {
    open spec fn obeys_from_spec() -> bool {
        true
    }

    open spec fn from_spec(e: std::io::Error) -> SessionError {
        SessionError::IoError(e)
    }
}

/// The view of an error has the same kind, cause and words.
pub proof fn law_session_error_view(e: SessionError)
    ensures
        ({
            &&& e matches SessionError::InvalidHandshake { reason } ==> (e@ is InvalidHandshake
                && e@->reason == reason@)
            &&& e matches SessionError::ParseError(words) ==> (e@ is ParseError
                && e@->ParseError_0 == words@)
            &&& e matches SessionError::IoError(cause) ==> (e@ is IoError && e@->IoError_0
                == cause)
            &&& e matches SessionError::ProtocolError(cause) ==> (e@ is ProtocolError
                && e@->ProtocolError_0 == cause@)
            &&& e is ChannelClosed ==> e@ is ChannelClosed
        }),
{
}

/// An error of the codec or of a socket becomes an error of the session with that cause.
pub proof fn law_session_error_from(cause: ProtocolError, failure: std::io::Error)
    ensures
        <SessionError as vstd::std_specs::convert::FromSpec<ProtocolError>>::from_spec(cause)
            == SessionError::ProtocolError(cause),
        <SessionError as vstd::std_specs::convert::FromSpec<std::io::Error>>::from_spec(failure)
            == SessionError::IoError(failure),
{
}

/// The words for each error: what failed, and then the reason, the words or the cause that it
/// carries.
pub proof fn law_session_error_words(e: SessionErrorView, words: Seq<char>)
    requires
        is_session_error_text(e, words),
    ensures
        ({
            &&& e is InvalidHandshake ==> words == "invalid CONNECT-UDP handshake: "@ + e->reason
            &&& e is ParseError ==> words == "path parse error: "@ + e->ParseError_0
            &&& e is ProtocolError ==> words == "protocol error: "@ + error::protocol_error_text(
                e->ProtocolError_0,
            )
            &&& e is ChannelClosed ==> words == "session channel closed unexpectedly"@
            &&& e is IoError ==> exists|s: String| #[trigger]
                to_string_from_display_ensures::<std::io::Error>(&e->IoError_0, s) && words
                    == "io error: "@ + s@
        }),
{
    if let SessionErrorView::IoError(cause) = e {
        let detail = choose|detail: Seq<char>| #[trigger]
            is_io_error_text(cause, detail) && words == "io error: "@ + detail;
        let s = choose|s: String| #[trigger]
            to_string_from_display_ensures::<std::io::Error>(&cause, s) && s@ == detail;
        assert(to_string_from_display_ensures::<std::io::Error>(&cause, s) && words == "io error: "@
            + s@);
    }
}

} // verus!
