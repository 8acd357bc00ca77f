//! The `X-Forwarded-Proto` header: the protocol that a client used to reach a proxy.
//!
//! A header value is a sequence of bytes. The header holds one protocol, written as `http` or
//! `https`; on reading, upper and lower case are the same.

use vstd::prelude::*;

verus! {

/// A protocol that a client may have used.
#[derive(Debug, Clone, Copy, PartialEq, Eq, Structural)]
pub enum Protocol {
    /// Plain HTTP.
    Http,
    /// HTTP over TLS.
    Https,
}

/// A header value that does not hold what the header is for.
#[derive(Debug, Clone, Copy, PartialEq, Eq, Structural)]
pub struct InvalidHeader;

/// The `X-Forwarded-Proto` header.
#[derive(Debug, Clone, PartialEq, Eq, Structural)]
pub struct XForwardedProto(pub Protocol);

/// The lower-case form of an ASCII letter; any other byte as it is.
pub open spec fn lower(byte: u8) -> u8 {
    if 0x41 <= byte <= 0x5a {
        (byte + 0x20) as u8
    } else {
        byte
    }
}

/// Whether two byte sequences are the same but for the case of their ASCII letters.
pub open spec fn same_ignoring_case(left: Seq<u8>, right: Seq<u8>) -> bool {
    &&& left.len() == right.len()
    &&& forall|i: int| 0 <= i < left.len() ==> lower(left[i]) == lower(right[i])
}

/// How a protocol is written: `http` or `https`, in lower case.
pub open spec fn protocol_text(protocol: Protocol) -> Seq<u8> {
    match protocol {
        Protocol::Http => seq![0x68u8, 0x74u8, 0x74u8, 0x70u8],
        Protocol::Https => seq![0x68u8, 0x74u8, 0x74u8, 0x70u8, 0x73u8],
    }
}

/// The protocol that a header value names, if it names one.
pub open spec fn parse_protocol(value: Seq<u8>) -> Option<Protocol> {
    if same_ignoring_case(value, protocol_text(Protocol::Http)) {
        Some(Protocol::Http)
    } else if same_ignoring_case(value, protocol_text(Protocol::Https)) {
        Some(Protocol::Https)
    } else {
        None
    }
}

/// What decoding makes of the values of the header: the protocol that the first value names.
/// The values behind the first are not looked at.
pub open spec fn decoded(values: Seq<Vec<u8>>) -> Result<XForwardedProto, InvalidHeader> {
    if values.len() == 0 {
        Err(InvalidHeader)
    } else {
        match parse_protocol(values[0]@) {
            Some(protocol) => Ok(XForwardedProto(protocol)),
            None => Err(InvalidHeader),
        }
    }
}

/// A protocol is read back from the way it is written.
pub proof fn lemma_parse_written(protocol: Protocol)
    ensures
        parse_protocol(protocol_text(protocol)) == Some(protocol),
{
}

/// Decoding what a header was encoded to gives the header back, whatever values follow.
pub proof fn lemma_decode_encoded(header: XForwardedProto, values: Seq<Vec<u8>>)
    requires
        values.len() > 0,
        values[0]@ == protocol_text(header.0),
    ensures
        decoded(values) == Ok::<XForwardedProto, InvalidHeader>(header),
{
}

/// The lower-case form of an ASCII letter; any other byte as it is.
fn to_lower(byte: u8) -> (lowered: u8)
    ensures
        lowered == lower(byte),
{
    if 0x41 <= byte && byte <= 0x5a {
        byte + 0x20
    } else {
        byte
    }
}

/// Whether two byte sequences are the same but for the case of their ASCII letters.
fn equal_ignoring_case(left: &[u8], right: &[u8]) -> (same: bool)
    ensures
        same == same_ignoring_case(left@, right@),
{
    if left.len() != right.len() {
        return false;
    }
    let mut at: usize = 0;
    while at < left.len()
        invariant
            at <= left@.len(),
            left@.len() == right@.len(),
            forall|i: int| 0 <= i < at ==> lower(left@[i]) == lower(right@[i]),
        decreases left@.len() - at,
    {
        if to_lower(left[at]) != to_lower(right[at]) {
            return false;
        }
        at += 1;
    }
    true
}

impl Protocol {
    /// The protocol as it is written: `http` or `https`.
    pub fn text(&self) -> (text: Vec<u8>)
        ensures
            text@ == protocol_text(*self),
    {
        let mut text: Vec<u8> = Vec::new();
        text.push(0x68u8);
        text.push(0x74u8);
        text.push(0x74u8);
        text.push(0x70u8);
        match self {
            Protocol::Http => {},
            Protocol::Https => {
                text.push(0x73u8);
            },
        }
        text
    }

    /// The protocol that `value` names, if it names one.
    pub fn parse(value: &[u8]) -> (protocol: Option<Protocol>)
        ensures
            protocol == parse_protocol(value@),
    {
        let http = Protocol::Http.text();
        let https = Protocol::Https.text();
        if equal_ignoring_case(value, http.as_slice()) {
            Some(Protocol::Http)
        } else if equal_ignoring_case(value, https.as_slice()) {
            Some(Protocol::Https)
        } else {
            None
        }
    }
}

impl XForwardedProto {
    /// The name of the header.
    pub fn name() -> (name: &'static str)
        ensures
            name@ == "x-forwarded-proto"@,
    {
        "x-forwarded-proto"
    }

    /// Reads the header from its values. The first value decides; there must be one, and it
    /// must name a protocol.
    pub fn decode(values: &[Vec<u8>]) -> (header: Result<XForwardedProto, InvalidHeader>)
        ensures
            header == decoded(values@),
    {
        if values.len() == 0 {
            return Err(InvalidHeader);
        }
        match Protocol::parse(values[0].as_slice()) {
            Some(protocol) => Ok(XForwardedProto(protocol)),
            None => Err(InvalidHeader),
        }
    }

    /// Writes the header: adds one value, the protocol as it is written, behind those that
    /// are there.
    pub fn encode(&self, values: &mut Vec<Vec<u8>>)
        ensures
            final(values)@.len() == old(values)@.len() + 1,
            final(values)@.take(old(values)@.len() as int) == old(values)@,
            final(values)@.last()@ == protocol_text(self.0),
    {
        let value = self.0.text();
        values.push(value);
    }

    /// The protocol that the header holds.
    pub fn protocol(&self) -> (protocol: &Protocol)
        ensures
            *protocol == self.0,
    {
        &self.0
    }

    /// The protocol that the header holds, by value.
    pub fn into_protocol(self) -> (protocol: Protocol)
        ensures
            protocol == self.0,
    {
        self.0
    }
}

} // verus!
