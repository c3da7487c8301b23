//! The error type shared by every operation of the protocol layer.

use hidapi::HidError;
use vstd::prelude::*;

verus! {

/// `hidapi::HidError`, the transport's own error. It is carried through
/// untouched: nothing in this crate looks inside it.
#[verifier::external_type_specification]
#[verifier::external_body]
pub struct ExHidError(HidError);

/// Why an operation on a headset failed.
#[derive(Debug)]
pub enum Error {
    /// The HID transport reported a failure.
    Hid(HidError),
    /// No enumerated device carries the requested serial number.
    DeviceNotFound,
    /// The device with the requested serial number belongs to another family.
    NotAVive,
    /// The declared and the received configuration size disagree.
    ConfigSizeMismatch,
    /// The configuration could not be read or decoded.
    ConfigReadFailed,
    /// The device answered with something the protocol does not allow; the
    /// text names the rule that was broken.
    ProtocolError(&'static str),
}

impl Error {
    /// True for a protocol violation whose reason reads `reason`.
    pub open spec fn is_protocol_error(self, reason: Seq<char>) -> bool {
        self matches Error::ProtocolError(text) && text@ == reason
    }
}

impl From<HidError> for Error {
    /// A transport failure becomes [`Error::Hid`], holding the same value.
    fn from(e: HidError) -> (r: Error)
        ensures
            r == Error::Hid(e),
    {
        Error::Hid(e)
    }
}

impl vstd::std_specs::convert::FromSpecImpl<HidError> for Error {
    open spec fn obeys_from_spec() -> bool {
        true
    }

    open spec fn from_spec(e: HidError) -> Error {
        Error::Hid(e)
    }
}

} // verus!
