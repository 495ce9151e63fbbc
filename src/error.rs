use vstd::prelude::*;

verus! {

/// A failure reported by the transport (the reader library) for one exchange.
#[derive(Debug, Clone, Copy, PartialEq, Eq, Structural)]
pub enum TransportFault {
    Malloc,
    Undefined(i32),
    UndefinedModulationType,
    NoDeviceFound,
    Io,
    InvalidArgument,
    DeviceNotSupported,
    NoSuchDeviceFound,
    BufferOverflow,
    Timeout,
    OperationAborted,
    NotImplemented,
    TargetReleased,
    RfTransmissionError,
    MifareAuthFailed,
    Soft,
    Chip,
}

/// Errors of the tag driver.
#[derive(Debug, Clone, Copy, PartialEq, Eq, Structural)]
pub enum NfcError {
    /// An exchange with the tag failed and could not be recovered.
    CommunicationFault(TransportFault),
    /// The selected target did not answer the version command as an NTAG213 does.
    InvalidTarget,
    /// An address, offset or length lies outside the ranges the tag accepts.
    InvalidArgument,
    /// A response did not have the length or shape the protocol guarantees.
    UnexpectedResponse,
}

/// The tag drops the radio link right after it acknowledges a page write, which
/// the reader reports as a transmission fault or a timeout.
pub open spec fn is_write_ack_fault(f: TransportFault) -> bool {
    f == TransportFault::RfTransmissionError || f == TransportFault::Timeout
}

/// Whether a fault seen on a page write is the tag's acknowledgement quirk, and so
/// counts as a successful write. This is the one place where a transport fault is
/// recovered from.
pub fn write_fault_is_ack(f: TransportFault) -> (r: bool)
    ensures
        r == is_write_ack_fault(f),
{
    match f {
        TransportFault::RfTransmissionError => true,
        TransportFault::Timeout => true,
        _ => false,
    }
}

} // verus!
