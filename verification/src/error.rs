use vstd::prelude::*;

verus! {

/// Why a message could not be built or understood.
///
/// The service port is reachable by any process in the session, so a bad
/// frame is an expected input: it is reported with one of these, never by
/// panicking.
#[derive(Clone, Copy, PartialEq, Eq, Debug, Structural)]
pub enum Malformed {
    /// The message does not fit in a `u32` size field.
    MessageTooLarge,
    /// The payload does not fit in a descriptor's `u32` size field.
    PayloadTooLarge,
    /// The complex bit is clear, so there are no descriptors to read.
    NotComplex,
    /// A descriptor's type byte would lie beyond the received bytes.
    DescriptorPastEnd,
    /// An out-of-line descriptor is cut short by the end of the message.
    OolTruncated,
    /// A port descriptor is cut short by the end of the message.
    PortTruncated,
    /// A descriptor of a kind this protocol never sends.
    UnsupportedDescriptor,
    /// The message carried no out-of-line payload.
    NoPayload,
}

impl Malformed {
    /// The human-readable reason.
    pub fn text(&self) -> (r: &'static str)
        ensures
            r == (match self {
                Malformed::MessageTooLarge => "message too large",
                Malformed::PayloadTooLarge => "payload too large",
                Malformed::NotComplex => "not a complex message",
                Malformed::DescriptorPastEnd => "descriptor runs past the message",
                Malformed::OolTruncated => "out-of-line descriptor is truncated",
                Malformed::PortTruncated => "port descriptor is truncated",
                Malformed::UnsupportedDescriptor => "unsupported descriptor kind",
                Malformed::NoPayload => "no payload descriptor",
            }),
    {
        match self {
            Malformed::MessageTooLarge => "message too large",
            Malformed::PayloadTooLarge => "payload too large",
            Malformed::NotComplex => "not a complex message",
            Malformed::DescriptorPastEnd => "descriptor runs past the message",
            Malformed::OolTruncated => "out-of-line descriptor is truncated",
            Malformed::PortTruncated => "port descriptor is truncated",
            Malformed::UnsupportedDescriptor => "unsupported descriptor kind",
            Malformed::NoPayload => "no payload descriptor",
        }
    }
}

} // verus!
