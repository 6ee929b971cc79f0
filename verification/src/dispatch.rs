//! The request gate.
//!
//! Every incoming operation, except a bare feature query, is examined
//! before it may reach the device: an unreachable, non-enumerable device
//! is rejected outright; a device mid-way through an interactive flow is
//! rejected as busy; a device that needs a bootloader update, a firmware
//! update or initialization is rejected naming every missing
//! precondition; a locked device has a PIN prompt triggered and the
//! caller is told to retry after PIN entry.  Only then is the request
//! forwarded.

use vstd::prelude::*;
use vstd::string::StrSliceExecFns;
use vstd::string::StringExecFns;

use crate::errors::DeviceError;
use crate::status::DeviceStatus;
use crate::strutil::{contains_seq, str_contains, str_eq};

verus! {

/// What the dispatcher decides for one request.
#[derive(Clone, Copy, Debug, PartialEq, Eq, Structural)]
pub enum GateDecision {
    /// The device may serve the request.
    Forward,
    /// The device answers nothing and is not even enumerable: its state
    /// is unknown and the request is rejected.
    RejectUnknownState,
    /// The device is mid-way through an interactive flow.
    RejectBusy,
    /// Updates or initialization are outstanding; each missing
    /// precondition is named.
    RejectNeeds { bootloader: bool, firmware: bool, initialization: bool },
    /// The device is locked: a PIN prompt is to be triggered and the
    /// caller must retry after PIN entry.
    TriggerPinFirst,
}

/// The dispatcher's rule.  `status` is the fresh evaluation (its `connected`
/// flag records whether a snapshot could be fetched); `device_enumerable`
/// is whether the device still shows up at all — an out-of-box bootloader
/// may enumerate yet answer no feature query, and such a device is let
/// through rather than falsely rejected.
pub open spec fn spec_gate(
    status: DeviceStatus,
    device_enumerable: bool,
    in_interactive_flow: bool,
    is_feature_query: bool,
) -> GateDecision {
    if !status.connected && !is_feature_query && !device_enumerable {
        GateDecision::RejectUnknownState
    } else if in_interactive_flow {
        GateDecision::RejectBusy
    } else if status.connected && (status.needs_bootloader_update || status.needs_firmware_update
        || status.needs_initialization) {
        GateDecision::RejectNeeds {
            bootloader: status.needs_bootloader_update,
            firmware: status.needs_firmware_update,
            initialization: status.needs_initialization,
        }
    } else if status.connected && status.needs_pin_unlock && !is_feature_query {
        GateDecision::TriggerPinFirst
    } else {
        GateDecision::Forward
    }
}

/// Decides whether a request may go to the device.
pub fn gate_request(
    status: &DeviceStatus,
    device_enumerable: bool,
    in_interactive_flow: bool,
    is_feature_query: bool,
) -> (r: GateDecision)
    ensures
        r == spec_gate(*status, device_enumerable, in_interactive_flow, is_feature_query),
{
    if !status.connected && !is_feature_query && !device_enumerable {
        GateDecision::RejectUnknownState
    } else if in_interactive_flow {
        GateDecision::RejectBusy
    } else if status.connected && (status.needs_bootloader_update || status.needs_firmware_update
        || status.needs_initialization) {
        GateDecision::RejectNeeds {
            bootloader: status.needs_bootloader_update,
            firmware: status.needs_firmware_update,
            initialization: status.needs_initialization,
        }
    } else if status.connected && status.needs_pin_unlock && !is_feature_query {
        GateDecision::TriggerPinFirst
    } else {
        GateDecision::Forward
    }
}

/// The error a rejecting decision carries; a forwarded request carries
/// none.
pub fn gate_error(decision: &GateDecision) -> (r: Option<DeviceError>)
    ensures
        r is None <==> *decision == GateDecision::Forward,
        *decision == GateDecision::RejectBusy ==> (r matches Some(e) && e is DeviceBusy),
        *decision == GateDecision::RejectUnknownState ==> (r matches Some(e)
            && e is CommunicationFailure),
        decision matches GateDecision::RejectNeeds { bootloader, firmware, initialization } ==> (
        r matches Some(e) && e == (DeviceError::RequiresUpdateOrInit {
            bootloader: *bootloader,
            firmware: *firmware,
            initialization: *initialization,
        })),
        *decision == GateDecision::TriggerPinFirst ==> (r matches Some(e)
            && e is RequiresPinUnlock),
{
    match decision {
        GateDecision::Forward => None,
        GateDecision::RejectUnknownState => Some(
            DeviceError::CommunicationFailure(
                String::from_str("device state unknown: feature fetch failed"),
            ),
        ),
        GateDecision::RejectBusy => Some(DeviceError::DeviceBusy),
        GateDecision::RejectNeeds { bootloader, firmware, initialization } => Some(
            DeviceError::RequiresUpdateOrInit {
                bootloader: *bootloader,
                firmware: *firmware,
                initialization: *initialization,
            },
        ),
        GateDecision::TriggerPinFirst => Some(DeviceError::RequiresPinUnlock),
    }
}

/// A transport error message that means another process holds the
/// device.
pub open spec fn spec_claimed_message(m: Seq<char>) -> bool {
    ||| contains_seq(m, "Device Already In Use"@)
    ||| contains_seq(m, "already claimed"@)
    ||| contains_seq(m, "Device Access Failed"@)
}

/// Classifies a transport error: held-by-another-process errors are
/// recoverable by closing the competing application and carry guidance;
/// everything else is a plain communication failure.
pub fn classify_transport_error(message: &str) -> (r: DeviceError)
    ensures
        spec_claimed_message(message@) ==> (r matches DeviceError::DeviceClaimed(m) && m@
            == message@),
        !spec_claimed_message(message@) ==> (r matches DeviceError::CommunicationFailure(m) && m@
            == message@),
{
    if str_contains(message, "Device Already In Use") || str_contains(message, "already claimed")
        || str_contains(message, "Device Access Failed") {
        DeviceError::DeviceClaimed(message.to_owned())
    } else {
        DeviceError::CommunicationFailure(message.to_owned())
    }
}

/// A rejection that reads "Unknown message" means the device is already
/// sitting at a PIN prompt, so triggering one again counts as success.
pub fn means_already_awaiting_pin(message: &str) -> (r: bool)
    ensures
        r == (message@ == "Unknown message"@),
{
    str_eq(message, "Unknown message")
}

/// A device label is at most thirty-two characters, every one a printable
/// character of the basic set.
pub open spec fn spec_label_ok(label: Seq<char>) -> bool {
    label.len() <= 32 && forall|i: int|
        0 <= i < label.len() ==> 32 <= #[trigger] label[i] as int <= 126
}

/// Validates a label before anything is sent to the device.
pub fn validate_label(label: &str) -> (r: Result<(), DeviceError>)
    ensures
        r is Ok <==> spec_label_ok(label@),
{
    let n = label.unicode_len();
    if n > 32 {
        return Err(
            DeviceError::InvalidInput(String::from_str("label must be 32 characters or less")),
        );
    }
    let mut i: usize = 0;
    while i < n
        invariant
            0 <= i <= n,
            n == label@.len(),
            forall|j: int| 0 <= j < i ==> 32 <= #[trigger] label@[j] as int <= 126,
        decreases n - i,
    {
        let c = label.get_char(i);
        let cv = c as u32;
        if cv < 32 || cv > 126 {
            return Err(
                DeviceError::InvalidInput(
                    String::from_str("label must contain only printable characters"),
                ),
            );
        }
        i += 1;
    }
    Ok(())
}

} // verus!
