//! The snapshot of an HTTP response that the renderer works from.

use vstd::prelude::*;

verus! {

/// The protocol version a response arrived with.
#[derive(Clone, Copy, Debug, PartialEq, Eq, Structural)]
pub enum ProtocolVersion {
    Http09,
    Http10,
    Http11,
    H2,
    H3,
}

impl ProtocolVersion {
    /// The version as it is written in a status line.
    pub open spec fn label(self) -> Seq<char> {
        match self {
            ProtocolVersion::Http09 => "HTTP/0.9"@,
            ProtocolVersion::Http10 => "HTTP/1.0"@,
            ProtocolVersion::Http11 => "HTTP/1.1"@,
            ProtocolVersion::H2 => "HTTP/2.0"@,
            ProtocolVersion::H3 => "HTTP/3.0"@,
        }
    }

    pub fn text(self) -> (s: &'static str)
        ensures
            s@ == self.label(),
    {
        match self {
            ProtocolVersion::Http09 => "HTTP/0.9",
            ProtocolVersion::Http10 => "HTTP/1.0",
            ProtocolVersion::Http11 => "HTTP/1.1",
            ProtocolVersion::H2 => "HTTP/2.0",
            ProtocolVersion::H3 => "HTTP/3.0",
        }
    }
}

/// A three-digit HTTP status code.
#[derive(Clone, Copy, Debug, PartialEq, Eq)]
pub struct Status {
    code: u16,
}

impl View for Status {
    type V = u16;

    closed spec fn view(&self) -> u16 {
        self.code
    }
}

impl Status {
    #[verifier::type_invariant]
    spec fn three_digits(self) -> bool {
        100 <= self.code <= 999
    }

    /// Accepts exactly the codes from 100 to 999.
    pub fn from_u16(code: u16) -> (r: Option<Status>)
        ensures
            r is Some <==> 100 <= code <= 999,
            r matches Some(s) ==> s@ == code,
    {
        if code < 100 || code > 999 {
            None
        } else {
            Some(Status { code })
        }
    }

    pub fn as_u16(&self) -> (code: u16)
        ensures
            code == self@,
            100 <= code <= 999,
    {
        proof {
            use_type_invariant(self);
        }
        self.code
    }
}

/// One header of a response, in the order it was received. A repeated
/// header may come without its name.
#[derive(Clone, Debug, PartialEq, Eq)]
pub struct HeaderEntry {
    pub name: Option<String>,
    pub value: String,
}

/// Everything the renderer needs of one response.
#[derive(Clone, Debug, PartialEq, Eq)]
pub struct ResponseBundle {
    pub version: ProtocolVersion,
    pub status: Status,
    pub headers: Vec<HeaderEntry>,
    pub body: String,
}

} // verus!
