//! PIN creation and unlock sessions.
//!
//! A PIN is entered as keypad positions, one to nine of them, each `1`
//! to `9`: the device shows a scrambled keypad, so the positions map to a
//! digit string without being the PIN's digits themselves.  A creation
//! session waits for a first entry and a confirmation; an unlock session
//! waits for one entry.  Any rejection or unexpected answer fails the
//! session, and every terminal outcome releases the device's in-flow
//! marker, so a device is never left busy after an error.

use vstd::prelude::*;
use vstd::string::StrSliceExecFns;
use vstd::string::StringExecFns;

use crate::errors::DeviceError;
use crate::flows::FlowRegistry;
use crate::strutil::str_eq;

verus! {

#[derive(Clone, Copy, Debug, PartialEq, Eq, Structural)]
pub enum PinStep {
    /// Waiting for the first PIN entry of a creation flow.
    AwaitingFirst,
    /// Waiting for the confirmation entry.
    AwaitingSecond,
    /// Waiting for the single entry of an unlock flow.
    AwaitingUnlock,
    Completed,
    Failed,
}

pub open spec fn pin_terminal(s: PinStep) -> bool {
    s == PinStep::Completed || s == PinStep::Failed
}

/// Model of a PIN session.
#[verifier::ext_equal]
pub struct PinSessionModel {
    pub device_id: Seq<char>,
    pub session_id: Seq<char>,
    pub current_step: PinStep,
    pub is_active: bool,
}

/// One PIN creation or unlock session.
pub struct PinCreationSession {
    pub device_id: String,
    pub session_id: String,
    pub current_step: PinStep,
    pub is_active: bool,
}

impl View for PinCreationSession {
    type V = PinSessionModel;

    open spec fn view(&self) -> PinSessionModel {
        PinSessionModel {
            device_id: self.device_id@,
            session_id: self.session_id@,
            current_step: self.current_step,
            is_active: self.is_active,
        }
    }
}

/// What a step call reports back to the client.
#[derive(Debug)]
pub struct PinMatrixResult {
    pub success: bool,
    pub next_step: Option<String>,
    pub session_id: String,
    pub error: Option<String>,
}

// ---------------------------------------------------------------------
// Keypad positions
// ---------------------------------------------------------------------
/// One to nine positions, each between one and nine.
pub open spec fn valid_pin_positions(ps: Seq<u8>) -> bool {
    1 <= ps.len() <= 9 && forall|i: int| 0 <= i < ps.len() ==> 1 <= #[trigger] ps[i] <= 9
}

pub open spec fn pin_digit_char(p: u8) -> char {
    if p == 1 {
        '1'
    } else if p == 2 {
        '2'
    } else if p == 3 {
        '3'
    } else if p == 4 {
        '4'
    } else if p == 5 {
        '5'
    } else if p == 6 {
        '6'
    } else if p == 7 {
        '7'
    } else if p == 8 {
        '8'
    } else {
        '9'
    }
}

/// The digit string a position sequence stands for.
pub open spec fn pin_string_of(ps: Seq<u8>) -> Seq<char> {
    Seq::new(ps.len(), |i: int| pin_digit_char(ps[i]))
}

/// Converts keypad positions to the digit string the device protocol
/// carries.  Rejected before any device communication: an empty entry,
/// more than nine positions, or a position outside one to nine.
pub fn pin_positions_to_string(positions: &Vec<u8>) -> (r: Result<String, DeviceError>)
    ensures
        r is Ok <==> valid_pin_positions(positions@),
        r matches Ok(s) ==> s@ == pin_string_of(positions@) && forall|i: int|
            0 <= i < s@.len() ==> #[trigger] s@[i] as int == '0' as int + positions@[i],
{
    let n = positions.len();
    if n == 0 || n > 9 {
        return Err(DeviceError::InvalidInput(String::from_str("PIN must be 1 to 9 positions")));
    }
    let mut i: usize = 0;
    let mut s = String::new();
    proof {
        reveal_strlit("1");
        reveal_strlit("2");
        reveal_strlit("3");
        reveal_strlit("4");
        reveal_strlit("5");
        reveal_strlit("6");
        reveal_strlit("7");
        reveal_strlit("8");
        reveal_strlit("9");
    }
    while i < n
        invariant
            0 <= i <= n,
            n == positions@.len(),
            s@.len() == i,
            forall|j: int| 0 <= j < i ==> 1 <= #[trigger] positions@[j] <= 9,
            forall|j: int| 0 <= j < i ==> #[trigger] s@[j] == pin_digit_char(positions@[j]),
            "1"@ =~= seq!['1'] && "2"@ =~= seq!['2'] && "3"@ =~= seq!['3'],
            "4"@ =~= seq!['4'] && "5"@ =~= seq!['5'] && "6"@ =~= seq!['6'],
            "7"@ =~= seq!['7'] && "8"@ =~= seq!['8'] && "9"@ =~= seq!['9'],
        decreases n - i,
    {
        let p = positions[i];
        if p < 1 || p > 9 {
            return Err(
                DeviceError::InvalidInput(String::from_str("PIN positions must be 1 to 9")),
            );
        }
        if p == 1 {
            s.append("1");
        } else if p == 2 {
            s.append("2");
        } else if p == 3 {
            s.append("3");
        } else if p == 4 {
            s.append("4");
        } else if p == 5 {
            s.append("5");
        } else if p == 6 {
            s.append("6");
        } else if p == 7 {
            s.append("7");
        } else if p == 8 {
            s.append("8");
        } else {
            s.append("9");
        }
        i += 1;
    }
    proof {
        assert(s@ =~= pin_string_of(positions@));
        assert forall|k: int| 0 <= k < s@.len() implies #[trigger] s@[k] as int == '0' as int
            + positions@[k] by {
            assert(1 <= positions@[k] <= 9);
        }
    }
    Ok(s)
}

// ---------------------------------------------------------------------
// Advancing a session on the device's answer
// ---------------------------------------------------------------------
/// What the device can answer to a PIN entry.
pub enum PinDeviceResponse {
    /// Another keypad prompt; the code tells a confirmation prompt apart.
    MatrixRequest(Option<u32>),
    /// A feature report; after an unlock attempt it shows whether the PIN
    /// is now cached.
    Features { pin_cached: bool },
    /// The device moved on to seed entropy; creation is done.
    EntropyRequest,
    Success,
    /// The device rejected the entry, with its message.
    Failure(String),
    /// Anything else.
    Other,
}

/// What a successful step means for the client.
#[derive(Clone, Copy, Debug, PartialEq, Eq, Structural)]
pub enum PinAdvance {
    /// The device wants the PIN entered again to confirm it.
    Confirm,
    /// PIN creation finished.
    Complete,
    /// The device is unlocked.
    Unlocked,
}

/// The state a session moves to on an answer.  Any answer to a terminal
/// session leaves it terminal; a rejection fails the session; an
/// unexpected answer mid-creation is treated as the device moving on.
pub open spec fn spec_pin_next(step: PinStep, resp: PinDeviceResponse) -> PinStep {
    match step {
        PinStep::AwaitingUnlock => match resp {
            PinDeviceResponse::Features { pin_cached } => if pin_cached {
                PinStep::Completed
            } else {
                PinStep::Failed
            },
            _ => PinStep::Failed,
        },
        PinStep::AwaitingFirst => match resp {
            PinDeviceResponse::MatrixRequest(_) => PinStep::AwaitingSecond,
            PinDeviceResponse::EntropyRequest => PinStep::Completed,
            PinDeviceResponse::Success => PinStep::Completed,
            PinDeviceResponse::Failure(_) => PinStep::Failed,
            _ => PinStep::AwaitingSecond,
        },
        PinStep::AwaitingSecond => match resp {
            PinDeviceResponse::EntropyRequest => PinStep::Completed,
            PinDeviceResponse::Success => PinStep::Completed,
            PinDeviceResponse::Failure(_) => PinStep::Failed,
            _ => PinStep::Completed,
        },
        PinStep::Completed => PinStep::Completed,
        PinStep::Failed => PinStep::Failed,
    }
}

/// The successful outcome of a step, or nothing where the step fails:
/// a rejection, a failed unlock, or a step on a terminal session.
pub open spec fn spec_pin_outcome(step: PinStep, resp: PinDeviceResponse) -> Option<PinAdvance> {
    match step {
        PinStep::AwaitingUnlock => match resp {
            PinDeviceResponse::Features { pin_cached } => if pin_cached {
                Some(PinAdvance::Unlocked)
            } else {
                None
            },
            _ => None,
        },
        PinStep::AwaitingFirst => match resp {
            PinDeviceResponse::MatrixRequest(_) => Some(PinAdvance::Confirm),
            PinDeviceResponse::EntropyRequest => Some(PinAdvance::Complete),
            PinDeviceResponse::Success => Some(PinAdvance::Complete),
            PinDeviceResponse::Failure(_) => None,
            _ => Some(PinAdvance::Confirm),
        },
        PinStep::AwaitingSecond => match resp {
            PinDeviceResponse::EntropyRequest => Some(PinAdvance::Complete),
            PinDeviceResponse::Success => Some(PinAdvance::Complete),
            PinDeviceResponse::Failure(_) => None,
            _ => Some(PinAdvance::Complete),
        },
        PinStep::Completed => None,
        PinStep::Failed => None,
    }
}

/// Advances one session step on the device's answer.
pub fn pin_step_advance(step: PinStep, resp: &PinDeviceResponse) -> (r: (
    PinStep,
    Result<PinAdvance, DeviceError>,
))
    ensures
        r.0 == spec_pin_next(step, *resp),
        r.1 is Ok <==> spec_pin_outcome(step, *resp) is Some,
        r.1 matches Ok(a) ==> spec_pin_outcome(step, *resp) == Some(a),
{
    match step {
        PinStep::AwaitingUnlock => match resp {
            PinDeviceResponse::Features { pin_cached } => {
                if *pin_cached {
                    (PinStep::Completed, Ok(PinAdvance::Unlocked))
                } else {
                    (
                        PinStep::Failed,
                        Err(
                            DeviceError::DeviceRejected(
                                String::from_str("PIN unlock failed: incorrect PIN"),
                            ),
                        ),
                    )
                }
            },
            PinDeviceResponse::Failure(m) => (
                PinStep::Failed,
                Err(DeviceError::DeviceRejected(m.clone())),
            ),
            _ => (PinStep::Failed, Err(DeviceError::ProtocolViolation)),
        },
        PinStep::AwaitingFirst => match resp {
            PinDeviceResponse::MatrixRequest(_) => (
                PinStep::AwaitingSecond,
                Ok(PinAdvance::Confirm),
            ),
            PinDeviceResponse::EntropyRequest => (PinStep::Completed, Ok(PinAdvance::Complete)),
            PinDeviceResponse::Success => (PinStep::Completed, Ok(PinAdvance::Complete)),
            PinDeviceResponse::Failure(m) => (
                PinStep::Failed,
                Err(DeviceError::DeviceRejected(m.clone())),
            ),
            _ => (PinStep::AwaitingSecond, Ok(PinAdvance::Confirm)),
        },
        PinStep::AwaitingSecond => match resp {
            PinDeviceResponse::EntropyRequest => (PinStep::Completed, Ok(PinAdvance::Complete)),
            PinDeviceResponse::Success => (PinStep::Completed, Ok(PinAdvance::Complete)),
            PinDeviceResponse::Failure(m) => (
                PinStep::Failed,
                Err(DeviceError::DeviceRejected(m.clone())),
            ),
            _ => (PinStep::Completed, Ok(PinAdvance::Complete)),
        },
        PinStep::Completed => (
            PinStep::Completed,
            Err(DeviceError::InvalidInput(String::from_str("PIN session already completed"))),
        ),
        PinStep::Failed => (
            PinStep::Failed,
            Err(DeviceError::InvalidInput(String::from_str("PIN session already failed"))),
        ),
    }
}

/// The word a step outcome reports as the next step.
pub open spec fn advance_word(a: PinAdvance) -> Seq<char> {
    match a {
        PinAdvance::Confirm => "confirm"@,
        PinAdvance::Complete => "complete"@,
        PinAdvance::Unlocked => "unlocked"@,
    }
}

// ---------------------------------------------------------------------
// The session table
// ---------------------------------------------------------------------
pub open spec fn has_session(s: Seq<PinCreationSession>, sid: Seq<char>) -> bool {
    exists|i: int| 0 <= i < s.len() && #[trigger] s[i].session_id@ == sid
}

pub open spec fn session_index(s: Seq<PinCreationSession>, sid: Seq<char>) -> int {
    choose|i: int| 0 <= i < s.len() && #[trigger] s[i].session_id@ == sid
}

/// All PIN sessions, keyed by session id.
pub struct PinSessionManager {
    pub sessions: Vec<PinCreationSession>,
}

impl PinSessionManager {
    /// Session ids are unique.
    pub open spec fn wf(&self) -> bool {
        forall|i: int, j: int|
            0 <= i < j < self.sessions@.len() ==> #[trigger] self.sessions@[i].session_id@
                != #[trigger] self.sessions@[j].session_id@
    }

    pub fn new() -> (r: PinSessionManager)
        ensures
            r.wf(),
            r.sessions@.len() == 0,
    {
        PinSessionManager { sessions: Vec::new() }
    }

    /// Starts a PIN flow for a device.  A device already in any
    /// interactive flow is refused as busy, before anything is touched;
    /// otherwise the device is marked in the PIN flow and a fresh active
    /// session is recorded at the given step.
    fn start_session(
        &mut self,
        flows: &mut FlowRegistry,
        device_id: &str,
        session_id: &str,
        step: PinStep,
    ) -> (r: Result<PinCreationSession, DeviceError>)
        requires
            old(self).wf(),
            old(flows).wf(),
            step == PinStep::AwaitingFirst || step == PinStep::AwaitingUnlock,
        ensures
            final(self).wf(),
            final(flows).wf(),
            old(flows).busy(device_id@) ==> (r matches Err(e) && e is DeviceBusy && *final(self)
                == *old(self) && *final(flows) == *old(flows)),
            r is Ok <==> !old(flows).busy(device_id@) && !has_session(
                old(self).sessions@,
                session_id@,
            ),
            r matches Ok(s) ==> (s@ == (PinSessionModel {
                device_id: device_id@,
                session_id: session_id@,
                current_step: step,
                is_active: true,
            })) && final(flows).in_pin_flow(device_id@) && has_session(
                final(self).sessions@,
                session_id@,
            ) && final(self).sessions@[session_index(final(self).sessions@, session_id@)]@ == s@,
            final(flows).recovery_flows == old(flows).recovery_flows,
            forall|x: Seq<char>|
                x != device_id@ ==> final(flows).in_pin_flow(x) == old(flows).in_pin_flow(x),
    {
        if flows.is_device_in_pin_flow(device_id) || flows.is_device_in_recovery_flow(device_id) {
            return Err(DeviceError::DeviceBusy);
        }
        if find_session_index(&self.sessions, session_id).is_some() {
            return Err(
                DeviceError::InvalidInput(String::from_str("PIN session id already in use")),
            );
        }
        flows.mark_device_in_pin_flow(device_id);
        let session = PinCreationSession {
            device_id: device_id.to_owned(),
            session_id: session_id.to_owned(),
            current_step: step,
            is_active: true,
        };
        let handed_out = PinCreationSession {
            device_id: device_id.to_owned(),
            session_id: session_id.to_owned(),
            current_step: step,
            is_active: true,
        };
        self.sessions.push(session);
        proof {
            let ns = self.sessions@;
            let at = ns.len() - 1;
            assert(ns[at].session_id@ == session_id@);
            assert forall|i: int, j: int|
                0 <= i < j < ns.len() implies #[trigger] ns[i].session_id@
                != #[trigger] ns[j].session_id@ by {
                if j < at {
                    assert(ns[i] == old(self).sessions@[i]);
                    assert(ns[j] == old(self).sessions@[j]);
                } else {
                    assert(ns[i] == old(self).sessions@[i]);
                    assert(old(self).sessions@[i].session_id@ != session_id@);
                }
            }
            let ix = session_index(ns, session_id@);
            assert(0 <= ix < ns.len() && ns[ix].session_id@ == session_id@);
            if ix != at {
                assert(false);
            }
        }
        Ok(handed_out)
    }

    /// Starts PIN creation: the device will ask for a first entry and a
    /// confirmation.
    pub fn start_pin_creation(
        &mut self,
        flows: &mut FlowRegistry,
        device_id: &str,
        session_id: &str,
    ) -> (r: Result<PinCreationSession, DeviceError>)
        requires
            old(self).wf(),
            old(flows).wf(),
        ensures
            final(self).wf(),
            final(flows).wf(),
            old(flows).busy(device_id@) ==> (r matches Err(e) && e is DeviceBusy),
            r is Ok <==> !old(flows).busy(device_id@) && !has_session(
                old(self).sessions@,
                session_id@,
            ),
            r matches Ok(s) ==> (s@ == (PinSessionModel {
                device_id: device_id@,
                session_id: session_id@,
                current_step: PinStep::AwaitingFirst,
                is_active: true,
            })) && final(flows).in_pin_flow(device_id@),
    {
        self.start_session(flows, device_id, session_id, PinStep::AwaitingFirst)
    }

    /// Starts PIN unlock for an initialized, locked device: one entry is
    /// expected.
    pub fn start_pin_unlock(
        &mut self,
        flows: &mut FlowRegistry,
        device_id: &str,
        session_id: &str,
    ) -> (r: Result<PinCreationSession, DeviceError>)
        requires
            old(self).wf(),
            old(flows).wf(),
        ensures
            final(self).wf(),
            final(flows).wf(),
            old(flows).busy(device_id@) ==> (r matches Err(e) && e is DeviceBusy),
            r is Ok <==> !old(flows).busy(device_id@) && !has_session(
                old(self).sessions@,
                session_id@,
            ),
            r matches Ok(s) ==> (s@ == (PinSessionModel {
                device_id: device_id@,
                session_id: session_id@,
                current_step: PinStep::AwaitingUnlock,
                is_active: true,
            })) && final(flows).in_pin_flow(device_id@),
    {
        self.start_session(flows, device_id, session_id, PinStep::AwaitingUnlock)
    }

    /// Applies the device's answer to an entry: the session advances, and
    /// on every terminal outcome — success or failure — the device's
    /// in-flow marker is released, so the device is never left busy.
    pub fn apply_pin_response(
        &mut self,
        flows: &mut FlowRegistry,
        session_id: &str,
        resp: &PinDeviceResponse,
    ) -> (r: Result<PinMatrixResult, DeviceError>)
        requires
            old(self).wf(),
            old(flows).wf(),
        ensures
            final(self).wf(),
            final(flows).wf(),
            !has_session(old(self).sessions@, session_id@) ==> r is Err && *final(self) == *old(
                self,
            ) && *final(flows) == *old(flows),
            has_session(old(self).sessions@, session_id@) ==> {
                let ix = session_index(old(self).sessions@, session_id@);
                let s = old(self).sessions@[ix];
                if !s.is_active {
                    r is Err && *final(self) == *old(self) && *final(flows) == *old(flows)
                } else {
                    let ns = spec_pin_next(s.current_step, *resp);
                    &&& final(self).sessions@ == old(self).sessions@.update(
                        ix,
                        final(self).sessions@[ix],
                    )
                    &&& final(self).sessions@[ix]@ == (PinSessionModel {
                        device_id: s.device_id@,
                        session_id: s.session_id@,
                        current_step: ns,
                        is_active: !pin_terminal(ns),
                    })
                    &&& pin_terminal(ns) ==> !final(flows).in_pin_flow(s.device_id@)
                    &&& !pin_terminal(ns) ==> *final(flows) == *old(flows)
                    &&& (r is Ok <==> spec_pin_outcome(s.current_step, *resp) is Some)
                    &&& r matches Ok(pr) ==> pr.success && pr.session_id@ == session_id@
                        && pr.error is None && (pr.next_step matches Some(w) && w@ == advance_word(
                        spec_pin_outcome(s.current_step, *resp)->0,
                    ))
                }
            },
    {
        let found = find_session_index(&self.sessions, session_id);
        let ix = match found {
            Some(ix) => ix,
            None => {
                return Err(
                    DeviceError::InvalidInput(String::from_str("PIN session not found")),
                );
            },
        };
        proof {
            let cix = session_index(self.sessions@, session_id@);
            assert(0 <= cix < self.sessions@.len() && self.sessions@[cix].session_id@
                == session_id@);
            if cix != ix as int {
                assert(false);
            }
        }
        if !self.sessions[ix].is_active {
            return Err(DeviceError::InvalidInput(String::from_str("PIN session is not active")));
        }
        let step = self.sessions[ix].current_step;
        let (next, outcome) = pin_step_advance(step, resp);
        let terminal = match next {
            PinStep::Completed => true,
            PinStep::Failed => true,
            _ => false,
        };
        let device_id = self.sessions[ix].device_id.clone();
        let sid_owned = self.sessions[ix].session_id.clone();
        let updated = PinCreationSession {
            device_id: self.sessions[ix].device_id.clone(),
            session_id: self.sessions[ix].session_id.clone(),
            current_step: next,
            is_active: !terminal,
        };
        self.sessions[ix] = updated;
        proof {
            assert forall|i: int, j: int|
                0 <= i < j < self.sessions@.len() implies #[trigger] self.sessions@[i].session_id@
                != #[trigger] self.sessions@[j].session_id@ by {
                assert(old(self).sessions@[i].session_id@ != old(self).sessions@[j].session_id@);
            }
        }
        if terminal {
            flows.unmark_device_in_pin_flow(device_id.as_str());
        }
        match outcome {
            Ok(adv) => {
                let word = match adv {
                    PinAdvance::Confirm => String::from_str("confirm"),
                    PinAdvance::Complete => String::from_str("complete"),
                    PinAdvance::Unlocked => String::from_str("unlocked"),
                };
                Ok(
                    PinMatrixResult {
                        success: true,
                        next_step: Some(word),
                        session_id: sid_owned,
                        error: None,
                    },
                )
            },
            Err(e) => Err(e),
        }
    }

    /// Cancels a session: it fails terminally and the device's marker is
    /// released.  Reports whether a session was there to cancel.
    pub fn cancel_pin_creation(&mut self, flows: &mut FlowRegistry, session_id: &str) -> (r:
        bool)
        requires
            old(self).wf(),
            old(flows).wf(),
        ensures
            final(self).wf(),
            final(flows).wf(),
            r == has_session(old(self).sessions@, session_id@),
            r ==> {
                let ix = session_index(old(self).sessions@, session_id@);
                &&& final(self).sessions@[ix]@ == (PinSessionModel {
                    device_id: old(self).sessions@[ix].device_id@,
                    session_id: old(self).sessions@[ix].session_id@,
                    current_step: PinStep::Failed,
                    is_active: false,
                })
                &&& !final(flows).in_pin_flow(old(self).sessions@[ix].device_id@)
            },
            !r ==> *final(self) == *old(self) && *final(flows) == *old(flows),
    {
        let found = find_session_index(&self.sessions, session_id);
        match found {
            Some(ix) => {
                proof {
                    let cix = session_index(self.sessions@, session_id@);
                    assert(0 <= cix < self.sessions@.len() && self.sessions@[cix].session_id@
                        == session_id@);
                    if cix != ix as int {
                        assert(false);
                    }
                }
                let device_id = self.sessions[ix].device_id.clone();
                let updated = PinCreationSession {
                    device_id: self.sessions[ix].device_id.clone(),
                    session_id: self.sessions[ix].session_id.clone(),
                    current_step: PinStep::Failed,
                    is_active: false,
                };
                self.sessions[ix] = updated;
                proof {
                    assert forall|i: int, j: int|
                        0 <= i < j < self.sessions@.len() implies #[trigger] self
                        .sessions@[i].session_id@ != #[trigger] self.sessions@[j].session_id@ by {
                        assert(old(self).sessions@[i].session_id@ != old(
                            self,
                        ).sessions@[j].session_id@);
                    }
                }
                flows.unmark_device_in_pin_flow(device_id.as_str());
                true
            },
            None => false,
        }
    }

    /// Looks a session up by id.
    pub fn get_pin_session_status(&self, session_id: &str) -> (r: Option<PinCreationSession>)
        requires
            self.wf(),
        ensures
            r is Some <==> has_session(self.sessions@, session_id@),
            r matches Some(s) ==> s@ == self.sessions@[session_index(self.sessions@, session_id@)]@,
    {
        let found = find_session_index(&self.sessions, session_id);
        match found {
            Some(ix) => {
                proof {
                    let cix = session_index(self.sessions@, session_id@);
                    assert(0 <= cix < self.sessions@.len() && self.sessions@[cix].session_id@
                        == session_id@);
                    if cix != ix as int {
                        assert(false);
                    }
                }
                Some(
                    PinCreationSession {
                        device_id: self.sessions[ix].device_id.clone(),
                        session_id: self.sessions[ix].session_id.clone(),
                        current_step: self.sessions[ix].current_step,
                        is_active: self.sessions[ix].is_active,
                    },
                )
            },
            None => None,
        }
    }
}

fn find_session_index(sessions: &Vec<PinCreationSession>, sid: &str) -> (r: Option<usize>)
    ensures
        match r {
            Some(i) => i < sessions@.len() && sessions@[i as int].session_id@ == sid@
                && forall|j: int| 0 <= j < i ==> sessions@[j].session_id@ != sid@,
            None => !has_session(sessions@, sid@),
        },
{
    let mut i: usize = 0;
    while i < sessions.len()
        invariant
            0 <= i <= sessions@.len(),
            forall|j: int| 0 <= j < i ==> sessions@[j].session_id@ != sid@,
        decreases sessions@.len() - i,
    {
        if str_eq(sessions[i].session_id.as_str(), sid) {
            return Some(i);
        }
        i += 1;
    }
    None
}

} // verus!
