//! The error kinds the orchestration layer reports.

use vstd::prelude::*;
use vstd::string::StringExecFns;

verus! {

/// Every failure is scoped to one device, request or session; none is
/// fatal to the process.
#[derive(Debug)]
pub enum DeviceError {
    /// The device is not connected or cannot be found.
    DeviceNotFound,
    /// The device is already in an interactive flow; finish it first.
    DeviceBusy,
    /// Another process holds the device.
    DeviceClaimed(String),
    /// A bounded wait on the device ran out.
    CommunicationTimeout,
    /// The transport failed mid-exchange.
    CommunicationFailure(String),
    /// The device answered with an explicit failure, with its message.
    DeviceRejected(String),
    /// An unexpected message for the current state; never retried.
    ProtocolViolation,
    /// Blocked until a bootloader update, firmware update or
    /// initialization completes.
    RequiresUpdateOrInit { bootloader: bool, firmware: bool, initialization: bool },
    /// Blocked until the PIN is entered; a PIN prompt has been triggered.
    RequiresPinUnlock,
    /// The request itself was malformed and nothing was sent to the
    /// device.
    InvalidInput(String),
}

impl DeviceError {
    /// A short fixed name for the kind, for logs and wire payloads.
    pub fn kind_name(&self) -> (r: String)
        ensures
            r@ == self.spec_kind_name(),
    {
        match self {
            DeviceError::DeviceNotFound => String::from_str("device_not_found"),
            DeviceError::DeviceBusy => String::from_str("device_busy"),
            DeviceError::DeviceClaimed(_) => String::from_str("device_claimed"),
            DeviceError::CommunicationTimeout => String::from_str("communication_timeout"),
            DeviceError::CommunicationFailure(_) => String::from_str("communication_failure"),
            DeviceError::DeviceRejected(_) => String::from_str("device_rejected"),
            DeviceError::ProtocolViolation => String::from_str("protocol_violation"),
            DeviceError::RequiresUpdateOrInit { .. } => String::from_str(
                "requires_update_or_init",
            ),
            DeviceError::RequiresPinUnlock => String::from_str("requires_pin_unlock"),
            DeviceError::InvalidInput(_) => String::from_str("invalid_input"),
        }
    }

    pub open spec fn spec_kind_name(&self) -> Seq<char> {
        match self {
            DeviceError::DeviceNotFound => "device_not_found"@,
            DeviceError::DeviceBusy => "device_busy"@,
            DeviceError::DeviceClaimed(_) => "device_claimed"@,
            DeviceError::CommunicationTimeout => "communication_timeout"@,
            DeviceError::CommunicationFailure(_) => "communication_failure"@,
            DeviceError::DeviceRejected(_) => "device_rejected"@,
            DeviceError::ProtocolViolation => "protocol_violation"@,
            DeviceError::RequiresUpdateOrInit { .. } => "requires_update_or_init"@,
            DeviceError::RequiresPinUnlock => "requires_pin_unlock"@,
            DeviceError::InvalidInput(_) => "invalid_input"@,
        }
    }
}

} // verus!
