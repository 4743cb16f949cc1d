//! Error kinds of the gateway.

use vstd::prelude::*;

verus! {

/// Why a magic packet or a MAC address text was rejected.
#[derive(Debug, Clone, Copy, PartialEq, Eq, Structural)]
pub enum ParseError {
    /// The packet holds fewer bytes than a magic packet needs.
    PacketTooShort { actual: usize, required: usize },
    /// The first six bytes are not all `0xFF`.
    BadSyncStream,
    /// The MAC repetition at `index` differs from the first one.
    RepetitionMismatch { index: usize },
    /// The address text does not split into six colon-separated parts.
    WrongPartCount { count: usize },
    /// The part at index `part` is not exactly two characters long.
    BadPartLength { part: usize },
    /// The part at index `part` holds a character that is not a hex digit.
    BadHexDigit { part: usize },
}

/// Why the MAC addresses of a descriptor could not be extracted.
#[derive(Debug, Clone, PartialEq, Eq)]
pub enum ExtractionError {
    /// The document is not a well-formed descriptor.
    MalformedDocument(String),
    /// The interface at this position declares no MAC address.
    InterfaceWithoutMac { interface: usize },
    /// The interface at this position declares an address that does not parse.
    InvalidMac { interface: usize, error: ParseError },
}

/// Errors of the gateway, one variant for each failing step.
#[derive(Debug, Clone, PartialEq, Eq)]
pub enum WolGatewayError {
    /// The listen address could not be parsed.
    AddressParseError(String),
    /// The UDP socket could not be bound.
    SocketBindError(String),
    /// The connection to libvirt failed.
    LibvirtConnectError(String),
    /// Receiving a datagram failed.
    UdpReceiveError(String),
    /// No VM declares the target MAC address, given as it was requested.
    VmNotFound(String),
    /// Listing the domains failed.
    DomainListError(String),
    /// Fetching a domain's XML description failed.
    DomainXmlError(String),
    /// A domain's description did not yield its MAC addresses.
    MacExtractionError(ExtractionError),
    /// Reading a domain's UUID failed.
    DomainUuidError(String),
    /// Looking a domain up by UUID failed.
    DomainLookupError(String),
    /// Reading a domain's name failed.
    DomainNameError(String),
    /// Reading a domain's state failed.
    DomainStateError(String),
    /// Starting a domain failed.
    DomainStartError(String),
    /// Resuming a domain failed.
    DomainResumeError(String),
    /// A packet or an address text was rejected.
    WakeOnLanParseError(ParseError),
}

} // verus!
