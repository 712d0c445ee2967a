//! What can go wrong in the codec.

use vstd::prelude::*;
use vstd::string::*;

use crate::text;

verus! {

/// A violation of the wire format.
#[derive(Debug, PartialEq)]
pub enum ProtocolError {
    /// Not enough bytes yet; the caller should buffer and retry.
    Incomplete { needed: usize },
    /// A variable-length integer outside of the canonical range of its prefix.
    InvalidVarInt,
    /// A value that no variable-length integer can carry.
    VarIntOverflow,
    /// A capsule length over the limit that the receiver accepts.
    CapsuleTooLarge { length: u64, limit: u64 },
    /// An HTTP datagram with no room for its context id.
    DatagramTooShort,
    /// A context id of the wrong parity for the side that allocated it.
    ContextIdParityViolation { id: u64 },
    /// Any other failure, described in words.
    Io(String),
}

/// A `ProtocolError` as a mathematical value.
pub enum ProtocolErrorView {
    Incomplete { needed: nat },
    InvalidVarInt,
    VarIntOverflow,
    CapsuleTooLarge { length: nat, limit: nat },
    DatagramTooShort,
    ContextIdParityViolation { id: nat },
    Io(Seq<char>),
}

impl View for ProtocolError {
    type V = ProtocolErrorView;

    open spec fn view(&self) -> ProtocolErrorView {
        match *self {
            ProtocolError::Incomplete { needed } => ProtocolErrorView::Incomplete {
                needed: needed as nat,
            },
            ProtocolError::InvalidVarInt => ProtocolErrorView::InvalidVarInt,
            ProtocolError::VarIntOverflow => ProtocolErrorView::VarIntOverflow,
            ProtocolError::CapsuleTooLarge { length, limit } => ProtocolErrorView::CapsuleTooLarge {
                length: length as nat,
                limit: limit as nat,
            },
            ProtocolError::DatagramTooShort => ProtocolErrorView::DatagramTooShort,
            ProtocolError::ContextIdParityViolation { id } =>
                ProtocolErrorView::ContextIdParityViolation { id: id as nat },
            ProtocolError::Io(text) => ProtocolErrorView::Io(text@),
        }
    }
}

/// The words for an error.
pub open spec fn protocol_error_text(e: ProtocolErrorView) -> Seq<char> {
    match e {
        ProtocolErrorView::Incomplete { needed } => "incomplete frame: need at least "@
            + text::decimal_text(needed) + " more bytes"@,
        ProtocolErrorView::InvalidVarInt => "varint value out of canonical range"@,
        ProtocolErrorView::VarIntOverflow => "varint overflow: encoded value exceeds u64::MAX"@,
        ProtocolErrorView::CapsuleTooLarge { length, limit } => "capsule payload too large: "@
            + text::decimal_text(length) + " bytes exceeds limit "@ + text::decimal_text(limit),
        ProtocolErrorView::DatagramTooShort => "http datagram too short to contain a context id"@,
        ProtocolErrorView::ContextIdParityViolation { id } =>
            "unexpected context id parity: id="@ + text::decimal_text(id),
        ProtocolErrorView::Io(words) => "io error: "@ + words,
    }
}

impl ProtocolError {
    /// The words for this error.
    pub fn to_string(&self) -> (s: String)
        ensures
            s@ == protocol_error_text(self@),
    {
        match self {
            ProtocolError::Incomplete { needed } => text::concat3(
                "incomplete frame: need at least ",
                text::decimal(*needed as u64).as_str(),
                " more bytes",
            ),
            ProtocolError::InvalidVarInt => "varint value out of canonical range".to_owned(),
            ProtocolError::VarIntOverflow => {
                "varint overflow: encoded value exceeds u64::MAX".to_owned()
            },
            ProtocolError::CapsuleTooLarge { length, limit } => {
                let mut s: String = text::concat3(
                    "capsule payload too large: ",
                    text::decimal(*length).as_str(),
                    " bytes exceeds limit ",
                );
                s.append(text::decimal(*limit).as_str());
                s
            },
            ProtocolError::DatagramTooShort => {
                "http datagram too short to contain a context id".to_owned()
            },
            ProtocolError::ContextIdParityViolation { id } => text::concat2(
                "unexpected context id parity: id=",
                text::decimal(*id).as_str(),
            ),
            ProtocolError::Io(words) => text::concat2("io error: ", words.as_str()),
        }
    }
}

/// The view of an error has the same kind, numbers and words.
pub proof fn law_protocol_error_view(e: ProtocolError)
    ensures
        ({
            &&& e matches ProtocolError::Incomplete { needed } ==> (e@ is Incomplete
                && e@->needed == needed)
            &&& e is InvalidVarInt ==> e@ is InvalidVarInt
            &&& e is VarIntOverflow ==> e@ is VarIntOverflow
            &&& e matches ProtocolError::CapsuleTooLarge { length, limit } ==> (e@
                is CapsuleTooLarge && e@->length == length && e@->limit == limit)
            &&& e is DatagramTooShort ==> e@ is DatagramTooShort
            &&& e matches ProtocolError::ContextIdParityViolation { id } ==> (e@
                is ContextIdParityViolation && e@->id == id)
            &&& e matches ProtocolError::Io(words) ==> (e@ is Io && e@->Io_0 == words@)
        }),
{
}

/// The words for each error name the numbers that it carries, in decimal.
pub proof fn law_protocol_error_words(e: ProtocolErrorView)
    ensures
        ({
            let words = protocol_error_text(e);
            &&& e is Incomplete ==> words == "incomplete frame: need at least "@
                + text::decimal_text(e->needed) + " more bytes"@
            &&& e is InvalidVarInt ==> words == "varint value out of canonical range"@
            &&& e is VarIntOverflow ==> words == "varint overflow: encoded value exceeds u64::MAX"@
            &&& e is CapsuleTooLarge ==> words == "capsule payload too large: "@
                + text::decimal_text(e->length) + " bytes exceeds limit "@ + text::decimal_text(
                e->limit,
            )
            &&& e is DatagramTooShort ==> words
                == "http datagram too short to contain a context id"@
            &&& e is ContextIdParityViolation ==> words == "unexpected context id parity: id="@
                + text::decimal_text(e->id)
            &&& e is Io ==> words == "io error: "@ + e->Io_0
        }),
{
}

} // verus!
