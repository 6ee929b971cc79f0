//! Seed recovery and seed verification sessions.
//!
//! Recovery restores a wallet from its word list; verification runs the
//! same character-by-character entry protocol in dry-run form, changing
//! nothing on the device.  The device drives the entry: each step
//! acknowledges a single letter, a space, a delete, or done, and the
//! device answers with the cursor it expects next — the session mirrors
//! that cursor.  A PIN prompt may be interleaved before character entry
//! begins.  Every terminal outcome, including cancellation, releases the
//! device's in-flow marker.

use vstd::prelude::*;
use vstd::string::StrSliceExecFns;
use vstd::string::StringExecFns;

use crate::errors::DeviceError;
use crate::flows::FlowRegistry;
use crate::strutil::str_eq;

verus! {

/// A word list has twelve, eighteen or twenty-four words.
pub open spec fn valid_word_count(wc: u32) -> bool {
    wc == 12 || wc == 18 || wc == 24
}

/// Model of a recovery session.
#[verifier::ext_equal]
pub struct RecoverySessionModel {
    pub session_id: Seq<char>,
    pub device_id: Seq<char>,
    pub word_count: u32,
    pub current_word: u32,
    pub current_character: u32,
    pub is_active: bool,
    pub passphrase_protection: bool,
    pub label: Seq<char>,
}

/// One seed-recovery session; the cursor mirrors the device's.
pub struct RecoverySession {
    pub session_id: String,
    pub device_id: String,
    pub word_count: u32,
    pub current_word: u32,
    pub current_character: u32,
    pub is_active: bool,
    pub passphrase_protection: bool,
    pub label: String,
}

impl View for RecoverySession {
    type V = RecoverySessionModel;

    open spec fn view(&self) -> RecoverySessionModel {
        RecoverySessionModel {
            session_id: self.session_id@,
            device_id: self.device_id@,
            word_count: self.word_count,
            current_word: self.current_word,
            current_character: self.current_character,
            is_active: self.is_active,
            passphrase_protection: self.passphrase_protection,
            label: self.label@,
        }
    }
}

/// Model of a verification session.
#[verifier::ext_equal]
pub struct VerificationSessionModel {
    pub session_id: Seq<char>,
    pub device_id: Seq<char>,
    pub word_count: u32,
    pub current_word: u32,
    pub current_character: u32,
    pub is_active: bool,
    pub pin_verified: bool,
}

/// One seed-verification (dry-run) session.
pub struct SeedVerificationSession {
    pub session_id: String,
    pub device_id: String,
    pub word_count: u32,
    pub current_word: u32,
    pub current_character: u32,
    pub is_active: bool,
    pub pin_verified: bool,
}

impl View for SeedVerificationSession {
    type V = VerificationSessionModel;

    open spec fn view(&self) -> VerificationSessionModel {
        VerificationSessionModel {
            session_id: self.session_id@,
            device_id: self.device_id@,
            word_count: self.word_count,
            current_word: self.current_word,
            current_character: self.current_character,
            is_active: self.is_active,
            pin_verified: self.pin_verified,
        }
    }
}

/// One non-letter acknowledgement.
#[derive(Clone, Copy, Debug, PartialEq, Eq, Structural)]
pub enum RecoveryAction {
    /// Advance to the next word.
    Space,
    /// Complete the entry.
    Done,
    /// Erase the previous character.
    Delete,
}

/// Where the entry stands after a step.
pub struct RecoveryProgress {
    pub word_pos: u32,
    pub character_pos: u32,
    pub auto_completed: bool,
    pub is_complete: bool,
    /// `None` for plain progress; during PIN interleave it carries the
    /// signal the client must act on next.
    pub error: Option<String>,
}

/// A session together with whether the device is waiting on the client.
pub struct RecoveryStatus {
    pub session: RecoverySession,
    pub is_waiting_for_input: bool,
    pub error: Option<String>,
}

// ---------------------------------------------------------------------
// Character acknowledgements
// ---------------------------------------------------------------------
/// What one entry step sends to the device.
#[derive(Clone, Copy, Debug, PartialEq, Eq, Structural)]
pub struct CharacterAckData {
    pub character: Option<char>,
    pub delete: bool,
    pub done: bool,
}

pub open spec fn is_ascii_letter(c: char) -> bool {
    ('a' <= c && c <= 'z') || ('A' <= c && c <= 'Z')
}

/// An uppercase letter folded to lowercase; anything else unchanged.
pub open spec fn spec_lower_ascii(c: char) -> char {
    if 'A' <= c && c <= 'Z' {
        (((c as u8) + 32) as char)
    } else {
        c
    }
}

/// Builds the acknowledgement for one entry step: an action stands alone,
/// a letter is folded to lowercase, and anything else is rejected before
/// any device communication.
pub fn recovery_character_ack(character: Option<char>, action: Option<RecoveryAction>) -> (r:
    Result<CharacterAckData, DeviceError>)
    ensures
        match action {
            Some(RecoveryAction::Done) => r == Ok::<CharacterAckData, DeviceError>(
                CharacterAckData { character: None, delete: false, done: true },
            ),
            Some(RecoveryAction::Delete) => r == Ok::<CharacterAckData, DeviceError>(
                CharacterAckData { character: None, delete: true, done: false },
            ),
            Some(RecoveryAction::Space) => r == Ok::<CharacterAckData, DeviceError>(
                CharacterAckData { character: Some(' '), delete: false, done: false },
            ),
            None => match character {
                Some(c) => if is_ascii_letter(c) {
                    r == Ok::<CharacterAckData, DeviceError>(
                        CharacterAckData {
                            character: Some(spec_lower_ascii(c)),
                            delete: false,
                            done: false,
                        },
                    )
                } else {
                    r is Err
                },
                None => r is Err,
            },
        },
{
    match action {
        Some(RecoveryAction::Done) => Ok(
            CharacterAckData { character: None, delete: false, done: true },
        ),
        Some(RecoveryAction::Delete) => Ok(
            CharacterAckData { character: None, delete: true, done: false },
        ),
        Some(RecoveryAction::Space) => Ok(
            CharacterAckData { character: Some(' '), delete: false, done: false },
        ),
        None => match character {
            Some(c) => {
                if ('a' <= c && c <= 'z') || ('A' <= c && c <= 'Z') {
                    let lowered = if 'A' <= c && c <= 'Z' {
                        ((c as u8) + 32) as char
                    } else {
                        c
                    };
                    Ok(CharacterAckData { character: Some(lowered), delete: false, done: false })
                } else {
                    Err(
                        DeviceError::InvalidInput(
                            String::from_str("character must be a single letter"),
                        ),
                    )
                }
            },
            None => Err(
                DeviceError::InvalidInput(String::from_str("no character or action provided")),
            ),
        },
    }
}

// ---------------------------------------------------------------------
// The device's answers during recovery
// ---------------------------------------------------------------------
/// What the device can answer during recovery or verification.
pub enum RecoveryDeviceResponse {
    /// The cursor the device expects the next character at.
    CharacterRequest { word_pos: u32, character_pos: u32 },
    /// A PIN prompt, interleaved before character entry begins.
    PinMatrixRequest,
    /// The device waits for a button press.
    ButtonRequest,
    Success,
    /// The device rejected the step, with its message.
    Failure(String),
    /// Anything else.
    Other,
}

// ---------------------------------------------------------------------
// The session tables
// ---------------------------------------------------------------------
pub open spec fn has_rec_session(s: Seq<RecoverySession>, sid: Seq<char>) -> bool {
    exists|i: int| 0 <= i < s.len() && #[trigger] s[i].session_id@ == sid
}

pub open spec fn rec_session_index(s: Seq<RecoverySession>, sid: Seq<char>) -> int {
    choose|i: int| 0 <= i < s.len() && #[trigger] s[i].session_id@ == sid
}

pub open spec fn has_ver_session(s: Seq<SeedVerificationSession>, sid: Seq<char>) -> bool {
    exists|i: int| 0 <= i < s.len() && #[trigger] s[i].session_id@ == sid
}

pub open spec fn ver_session_index(s: Seq<SeedVerificationSession>, sid: Seq<char>) -> int {
    choose|i: int| 0 <= i < s.len() && #[trigger] s[i].session_id@ == sid
}

/// All recovery and verification sessions, keyed by session id.
pub struct RecoveryManager {
    pub sessions: Vec<RecoverySession>,
    pub verifications: Vec<SeedVerificationSession>,
}

impl RecoveryManager {
    /// Session ids are unique within each table.
    pub open spec fn wf(&self) -> bool {
        &&& forall|i: int, j: int|
            0 <= i < j < self.sessions@.len() ==> #[trigger] self.sessions@[i].session_id@
                != #[trigger] self.sessions@[j].session_id@
        &&& forall|i: int, j: int|
            0 <= i < j < self.verifications@.len() ==> #[trigger] self
                .verifications@[i].session_id@ != #[trigger] self.verifications@[j].session_id@
    }

    pub fn new() -> (r: RecoveryManager)
        ensures
            r.wf(),
            r.sessions@.len() == 0,
            r.verifications@.len() == 0,
    {
        RecoveryManager { sessions: Vec::new(), verifications: Vec::new() }
    }

    /// Starts a recovery session.  An unsupported word count is rejected
    /// before anything is touched; a device already in any interactive
    /// flow is refused as busy; otherwise the device is marked in the
    /// recovery flow and a fresh session is recorded at the start of the
    /// first word.
    pub fn start_recovery(
        &mut self,
        flows: &mut FlowRegistry,
        device_id: &str,
        session_id: &str,
        word_count: u32,
        passphrase_protection: bool,
        label: &str,
    ) -> (r: Result<RecoverySession, DeviceError>)
        requires
            old(self).wf(),
            old(flows).wf(),
        ensures
            final(self).wf(),
            final(flows).wf(),
            !valid_word_count(word_count) ==> (r matches Err(e) && e is InvalidInput
                && *final(self) == *old(self) && *final(flows) == *old(flows)),
            valid_word_count(word_count) && old(flows).busy(device_id@) ==> (r matches Err(e)
                && e is DeviceBusy && *final(self) == *old(self) && *final(flows) == *old(flows)),
            r is Ok <==> valid_word_count(word_count) && !old(flows).busy(device_id@)
                && !has_rec_session(old(self).sessions@, session_id@),
            r matches Ok(s) ==> (s@ == (RecoverySessionModel {
                session_id: session_id@,
                device_id: device_id@,
                word_count,
                current_word: 0,
                current_character: 0,
                is_active: true,
                passphrase_protection,
                label: label@,
            })) && final(flows).in_recovery_flow(device_id@) && has_rec_session(
                final(self).sessions@,
                session_id@,
            ),
    {
        if !(word_count == 12 || word_count == 18 || word_count == 24) {
            return Err(
                DeviceError::InvalidInput(
                    String::from_str("word count must be 12, 18, or 24"),
                ),
            );
        }
        if flows.is_device_in_pin_flow(device_id) || flows.is_device_in_recovery_flow(device_id) {
            return Err(DeviceError::DeviceBusy);
        }
        if find_rec_index(&self.sessions, session_id).is_some() {
            return Err(
                DeviceError::InvalidInput(String::from_str("recovery session id already in use")),
            );
        }
        flows.mark_device_in_recovery_flow(device_id);
        let session = RecoverySession {
            session_id: session_id.to_owned(),
            device_id: device_id.to_owned(),
            word_count,
            current_word: 0,
            current_character: 0,
            is_active: true,
            passphrase_protection,
            label: label.to_owned(),
        };
        let handed_out = RecoverySession {
            session_id: session_id.to_owned(),
            device_id: device_id.to_owned(),
            word_count,
            current_word: 0,
            current_character: 0,
            is_active: true,
            passphrase_protection,
            label: label.to_owned(),
        };
        self.sessions.push(session);
        proof {
            let ns = self.sessions@;
            let at = ns.len() - 1;
            assert(ns[at].session_id@ == session_id@);
            assert forall|i: int, j: int|
                0 <= i < j < ns.len() implies #[trigger] ns[i].session_id@
                != #[trigger] ns[j].session_id@ by {
                if j < at {
                    assert(ns[i] == old(self).sessions@[i]);
                    assert(ns[j] == old(self).sessions@[j]);
                } else {
                    assert(ns[i] == old(self).sessions@[i]);
                    assert(old(self).sessions@[i].session_id@ != session_id@);
                }
            }
        }
        Ok(handed_out)
    }

    /// Starts a verification session: the same entry protocol, dry-run.
    /// No label or passphrase change accompanies it.
    pub fn start_seed_verification(
        &mut self,
        flows: &mut FlowRegistry,
        device_id: &str,
        session_id: &str,
        word_count: u32,
    ) -> (r: Result<SeedVerificationSession, DeviceError>)
        requires
            old(self).wf(),
            old(flows).wf(),
        ensures
            final(self).wf(),
            final(flows).wf(),
            !valid_word_count(word_count) ==> (r matches Err(e) && e is InvalidInput
                && *final(self) == *old(self) && *final(flows) == *old(flows)),
            valid_word_count(word_count) && old(flows).busy(device_id@) ==> (r matches Err(e)
                && e is DeviceBusy && *final(self) == *old(self) && *final(flows) == *old(flows)),
            r is Ok <==> valid_word_count(word_count) && !old(flows).busy(device_id@)
                && !has_ver_session(old(self).verifications@, session_id@),
            r matches Ok(s) ==> (s@ == (VerificationSessionModel {
                session_id: session_id@,
                device_id: device_id@,
                word_count,
                current_word: 0,
                current_character: 0,
                is_active: true,
                pin_verified: false,
            })) && final(flows).in_recovery_flow(device_id@) && has_ver_session(
                final(self).verifications@,
                session_id@,
            ),
    {
        if !(word_count == 12 || word_count == 18 || word_count == 24) {
            return Err(
                DeviceError::InvalidInput(
                    String::from_str("word count must be 12, 18, or 24"),
                ),
            );
        }
        if flows.is_device_in_pin_flow(device_id) || flows.is_device_in_recovery_flow(device_id) {
            return Err(DeviceError::DeviceBusy);
        }
        if find_ver_index(&self.verifications, session_id).is_some() {
            return Err(
                DeviceError::InvalidInput(
                    String::from_str("verification session id already in use"),
                ),
            );
        }
        flows.mark_device_in_recovery_flow(device_id);
        let session = SeedVerificationSession {
            session_id: session_id.to_owned(),
            device_id: device_id.to_owned(),
            word_count,
            current_word: 0,
            current_character: 0,
            is_active: true,
            pin_verified: false,
        };
        let handed_out = SeedVerificationSession {
            session_id: session_id.to_owned(),
            device_id: device_id.to_owned(),
            word_count,
            current_word: 0,
            current_character: 0,
            is_active: true,
            pin_verified: false,
        };
        self.verifications.push(session);
        proof {
            let ns = self.verifications@;
            let at = ns.len() - 1;
            assert(ns[at].session_id@ == session_id@);
            assert forall|i: int, j: int|
                0 <= i < j < ns.len() implies #[trigger] ns[i].session_id@
                != #[trigger] ns[j].session_id@ by {
                if j < at {
                    assert(ns[i] == old(self).verifications@[i]);
                    assert(ns[j] == old(self).verifications@[j]);
                } else {
                    assert(ns[i] == old(self).verifications@[i]);
                    assert(old(self).verifications@[i].session_id@ != session_id@);
                }
            }
        }
        Ok(handed_out)
    }

    /// Applies the device's answer to a character acknowledgement.  A
    /// cursor answer moves the session's cursor; success and rejection
    /// end the session and release the device; anything else is a
    /// protocol violation, which also ends the session and releases the
    /// device so it is never left busy.
    pub fn apply_recovery_response(
        &mut self,
        flows: &mut FlowRegistry,
        session_id: &str,
        resp: &RecoveryDeviceResponse,
    ) -> (r: Result<RecoveryProgress, DeviceError>)
        requires
            old(self).wf(),
            old(flows).wf(),
        ensures
            final(self).wf(),
            final(flows).wf(),
            !has_rec_session(old(self).sessions@, session_id@) ==> r is Err && *final(self)
                == *old(self) && *final(flows) == *old(flows),
            has_rec_session(old(self).sessions@, session_id@) ==> {
                let ix = rec_session_index(old(self).sessions@, session_id@);
                let s = old(self).sessions@[ix];
                if !s.is_active {
                    r is Err && *final(self) == *old(self) && *final(flows) == *old(flows)
                } else {
                    match *resp {
                        RecoveryDeviceResponse::CharacterRequest { word_pos, character_pos } => {
                            &&& (r matches Ok(p) && p.word_pos == word_pos && p.character_pos
                                == character_pos && !p.is_complete && p.error is None)
                            &&& final(self).sessions@[ix]@ == (RecoverySessionModel {
                                current_word: word_pos,
                                current_character: character_pos,
                                ..s@
                            })
                            &&& *final(flows) == *old(flows)
                        },
                        RecoveryDeviceResponse::Success => {
                            &&& (r matches Ok(p) && p.is_complete && p.error is None)
                            &&& final(self).sessions@[ix]@ == (RecoverySessionModel {
                                is_active: false,
                                ..s@
                            })
                            &&& !final(flows).in_recovery_flow(s.device_id@)
                        },
                        RecoveryDeviceResponse::Failure(_) => {
                            &&& (r matches Err(e) && e is DeviceRejected)
                            &&& final(self).sessions@[ix]@ == (RecoverySessionModel {
                                is_active: false,
                                ..s@
                            })
                            &&& !final(flows).in_recovery_flow(s.device_id@)
                        },
                        _ => {
                            &&& (r matches Err(e) && e is ProtocolViolation)
                            &&& final(self).sessions@[ix]@ == (RecoverySessionModel {
                                is_active: false,
                                ..s@
                            })
                            &&& !final(flows).in_recovery_flow(s.device_id@)
                        },
                    }
                }
            },
    {
        let found = find_rec_index(&self.sessions, session_id);
        let ix = match found {
            Some(ix) => ix,
            None => {
                return Err(
                    DeviceError::InvalidInput(String::from_str("recovery session not found")),
                );
            },
        };
        proof {
            let cix = rec_session_index(self.sessions@, session_id@);
            assert(0 <= cix < self.sessions@.len() && self.sessions@[cix].session_id@
                == session_id@);
            if cix != ix as int {
                assert(false);
            }
        }
        if !self.sessions[ix].is_active {
            return Err(
                DeviceError::InvalidInput(String::from_str("recovery session is not active")),
            );
        }
        let cur_w = self.sessions[ix].current_word;
        let cur_c = self.sessions[ix].current_character;
        match resp {
            RecoveryDeviceResponse::CharacterRequest { word_pos, character_pos } => {
                let updated = RecoverySession {
                    session_id: self.sessions[ix].session_id.clone(),
                    device_id: self.sessions[ix].device_id.clone(),
                    word_count: self.sessions[ix].word_count,
                    current_word: *word_pos,
                    current_character: *character_pos,
                    is_active: true,
                    passphrase_protection: self.sessions[ix].passphrase_protection,
                    label: self.sessions[ix].label.clone(),
                };
                self.sessions[ix] = updated;
                proof {
                    assert forall|i: int, j: int|
                        0 <= i < j < self.sessions@.len() implies #[trigger] self
                        .sessions@[i].session_id@ != #[trigger] self.sessions@[j].session_id@ by {
                        assert(old(self).sessions@[i].session_id@ != old(
                            self,
                        ).sessions@[j].session_id@);
                    }
                }
                Ok(
                    RecoveryProgress {
                        word_pos: *word_pos,
                        character_pos: *character_pos,
                        auto_completed: false,
                        is_complete: false,
                        error: None,
                    },
                )
            },
            RecoveryDeviceResponse::Success => {
                let device_id = self.close_rec_session(ix);
                flows.unmark_device_in_recovery_flow(device_id.as_str());
                Ok(
                    RecoveryProgress {
                        word_pos: cur_w,
                        character_pos: cur_c,
                        auto_completed: false,
                        is_complete: true,
                        error: None,
                    },
                )
            },
            RecoveryDeviceResponse::Failure(m) => {
                let msg = m.clone();
                let device_id = self.close_rec_session(ix);
                flows.unmark_device_in_recovery_flow(device_id.as_str());
                Err(DeviceError::DeviceRejected(msg))
            },
            _ => {
                let device_id = self.close_rec_session(ix);
                flows.unmark_device_in_recovery_flow(device_id.as_str());
                Err(DeviceError::ProtocolViolation)
            },
        }
    }

    /// Applies the device's answer to a PIN entry interleaved
    /// mid-recovery.  A further prompt or a button wait is reported as
    /// the signal the client must act on; a cursor answer means phrase
    /// entry begins; success completes the session and releases the
    /// device.
    pub fn apply_recovery_pin_response(
        &mut self,
        flows: &mut FlowRegistry,
        session_id: &str,
        resp: &RecoveryDeviceResponse,
    ) -> (r: Result<RecoveryProgress, DeviceError>)
        requires
            old(self).wf(),
            old(flows).wf(),
        ensures
            final(self).wf(),
            final(flows).wf(),
            !has_rec_session(old(self).sessions@, session_id@) ==> r is Err && *final(self)
                == *old(self) && *final(flows) == *old(flows),
            has_rec_session(old(self).sessions@, session_id@) ==> {
                let ix = rec_session_index(old(self).sessions@, session_id@);
                let s = old(self).sessions@[ix];
                if !s.is_active {
                    r is Err && *final(self) == *old(self) && *final(flows) == *old(flows)
                } else {
                    match *resp {
                        RecoveryDeviceResponse::PinMatrixRequest => (r matches Ok(p)
                            && !p.is_complete && (p.error matches Some(w) && w@ == "pin_confirm"@))
                            && *final(self) == *old(self) && *final(flows) == *old(flows),
                        RecoveryDeviceResponse::ButtonRequest => (r matches Ok(p) && !p.is_complete
                            && (p.error matches Some(w) && w@ == "button_confirm"@)) && *final(self)
                            == *old(self) && *final(flows) == *old(flows),
                        RecoveryDeviceResponse::CharacterRequest { word_pos, character_pos } => {
                            &&& (r matches Ok(p) && p.word_pos == word_pos && p.character_pos
                                == character_pos && !p.is_complete && (p.error matches Some(w)
                                && w@ == "phrase_entry"@))
                            &&& final(self).sessions@[ix]@ == (RecoverySessionModel {
                                current_word: word_pos,
                                current_character: character_pos,
                                ..s@
                            })
                            &&& *final(flows) == *old(flows)
                        },
                        RecoveryDeviceResponse::Success => {
                            &&& (r matches Ok(p) && p.is_complete && p.error is None)
                            &&& final(self).sessions@[ix]@ == (RecoverySessionModel {
                                is_active: false,
                                ..s@
                            })
                            &&& !final(flows).in_recovery_flow(s.device_id@)
                        },
                        RecoveryDeviceResponse::Failure(_) => {
                            &&& (r matches Err(e) && e is DeviceRejected)
                            &&& final(self).sessions@[ix]@ == (RecoverySessionModel {
                                is_active: false,
                                ..s@
                            })
                            &&& !final(flows).in_recovery_flow(s.device_id@)
                        },
                        _ => {
                            &&& (r matches Err(e) && e is ProtocolViolation)
                            &&& final(self).sessions@[ix]@ == (RecoverySessionModel {
                                is_active: false,
                                ..s@
                            })
                            &&& !final(flows).in_recovery_flow(s.device_id@)
                        },
                    }
                }
            },
    {
        let found = find_rec_index(&self.sessions, session_id);
        let ix = match found {
            Some(ix) => ix,
            None => {
                return Err(
                    DeviceError::InvalidInput(String::from_str("recovery session not found")),
                );
            },
        };
        proof {
            let cix = rec_session_index(self.sessions@, session_id@);
            assert(0 <= cix < self.sessions@.len() && self.sessions@[cix].session_id@
                == session_id@);
            if cix != ix as int {
                assert(false);
            }
        }
        if !self.sessions[ix].is_active {
            return Err(
                DeviceError::InvalidInput(String::from_str("recovery session is not active")),
            );
        }
        let cur_w = self.sessions[ix].current_word;
        let cur_c = self.sessions[ix].current_character;
        match resp {
            RecoveryDeviceResponse::PinMatrixRequest => Ok(
                RecoveryProgress {
                    word_pos: cur_w,
                    character_pos: cur_c,
                    auto_completed: false,
                    is_complete: false,
                    error: Some(String::from_str("pin_confirm")),
                },
            ),
            RecoveryDeviceResponse::ButtonRequest => Ok(
                RecoveryProgress {
                    word_pos: cur_w,
                    character_pos: cur_c,
                    auto_completed: false,
                    is_complete: false,
                    error: Some(String::from_str("button_confirm")),
                },
            ),
            RecoveryDeviceResponse::CharacterRequest { word_pos, character_pos } => {
                let updated = RecoverySession {
                    session_id: self.sessions[ix].session_id.clone(),
                    device_id: self.sessions[ix].device_id.clone(),
                    word_count: self.sessions[ix].word_count,
                    current_word: *word_pos,
                    current_character: *character_pos,
                    is_active: true,
                    passphrase_protection: self.sessions[ix].passphrase_protection,
                    label: self.sessions[ix].label.clone(),
                };
                self.sessions[ix] = updated;
                proof {
                    assert forall|i: int, j: int|
                        0 <= i < j < self.sessions@.len() implies #[trigger] self
                        .sessions@[i].session_id@ != #[trigger] self.sessions@[j].session_id@ by {
                        assert(old(self).sessions@[i].session_id@ != old(
                            self,
                        ).sessions@[j].session_id@);
                    }
                }
                Ok(
                    RecoveryProgress {
                        word_pos: *word_pos,
                        character_pos: *character_pos,
                        auto_completed: false,
                        is_complete: false,
                        error: Some(String::from_str("phrase_entry")),
                    },
                )
            },
            RecoveryDeviceResponse::Success => {
                let device_id = self.close_rec_session(ix);
                flows.unmark_device_in_recovery_flow(device_id.as_str());
                Ok(
                    RecoveryProgress {
                        word_pos: cur_w,
                        character_pos: cur_c,
                        auto_completed: false,
                        is_complete: true,
                        error: None,
                    },
                )
            },
            RecoveryDeviceResponse::Failure(m) => {
                let msg = m.clone();
                let device_id = self.close_rec_session(ix);
                flows.unmark_device_in_recovery_flow(device_id.as_str());
                Err(DeviceError::DeviceRejected(msg))
            },
            _ => {
                let device_id = self.close_rec_session(ix);
                flows.unmark_device_in_recovery_flow(device_id.as_str());
                Err(DeviceError::ProtocolViolation)
            },
        }
    }

    /// Marks a session inactive and hands back its device id.
    fn close_rec_session(&mut self, ix: usize) -> (r: String)
        requires
            old(self).wf(),
            ix < old(self).sessions@.len(),
        ensures
            final(self).wf(),
            r@ == old(self).sessions@[ix as int].device_id@,
            final(self).sessions@.len() == old(self).sessions@.len(),
            final(self).sessions@[ix as int]@ == (RecoverySessionModel {
                is_active: false,
                ..old(self).sessions@[ix as int]@
            }),
            forall|j: int|
                0 <= j < final(self).sessions@.len() && j != ix ==> final(self).sessions@[j] == old(
                    self,
                ).sessions@[j],
            final(self).verifications == old(self).verifications,
    {
        let device_id = self.sessions[ix].device_id.clone();
        let updated = RecoverySession {
            session_id: self.sessions[ix].session_id.clone(),
            device_id: self.sessions[ix].device_id.clone(),
            word_count: self.sessions[ix].word_count,
            current_word: self.sessions[ix].current_word,
            current_character: self.sessions[ix].current_character,
            is_active: false,
            passphrase_protection: self.sessions[ix].passphrase_protection,
            label: self.sessions[ix].label.clone(),
        };
        self.sessions[ix] = updated;
        proof {
            assert forall|i: int, j: int|
                0 <= i < j < self.sessions@.len() implies #[trigger] self.sessions@[i].session_id@
                != #[trigger] self.sessions@[j].session_id@ by {
                assert(old(self).sessions@[i].session_id@ != old(self).sessions@[j].session_id@);
            }
        }
        device_id
    }

    /// Cancels a recovery session: it is dropped and the device's marker
    /// is released whether or not the device acknowledged any cancel
    /// message.  Reports whether a session was there to cancel.
    pub fn cancel_recovery_session(&mut self, flows: &mut FlowRegistry, session_id: &str) -> (r:
        Option<String>)
        requires
            old(self).wf(),
            old(flows).wf(),
        ensures
            final(self).wf(),
            final(flows).wf(),
            r is Some <==> has_rec_session(old(self).sessions@, session_id@),
            r matches Some(d) ==> d@ == old(self).sessions@[rec_session_index(
                old(self).sessions@,
                session_id@,
            )].device_id@ && !has_rec_session(final(self).sessions@, session_id@)
                && !final(flows).in_recovery_flow(d@),
            r is None ==> *final(self) == *old(self) && *final(flows) == *old(flows),
    {
        let found = find_rec_index(&self.sessions, session_id);
        match found {
            Some(ix) => {
                proof {
                    let cix = rec_session_index(self.sessions@, session_id@);
                    assert(0 <= cix < self.sessions@.len() && self.sessions@[cix].session_id@
                        == session_id@);
                    if cix != ix as int {
                        assert(false);
                    }
                }
                let removed = self.sessions.remove(ix);
                proof {
                    old(self).sessions@.remove_ensures(ix as int);
                    assert forall|i: int, j: int|
                        0 <= i < j < self.sessions@.len() implies #[trigger] self
                        .sessions@[i].session_id@ != #[trigger] self.sessions@[j].session_id@ by {
                        let oi = if i < ix as int {
                            i
                        } else {
                            i + 1
                        };
                        let oj = if j < ix as int {
                            j
                        } else {
                            j + 1
                        };
                        assert(old(self).sessions@[oi] == self.sessions@[i]);
                        assert(old(self).sessions@[oj] == self.sessions@[j]);
                    }
                    assert forall|j: int|
                        0 <= j < self.sessions@.len() implies #[trigger] self
                        .sessions@[j].session_id@ != session_id@ by {
                        let oj = if j < ix as int {
                            j
                        } else {
                            j + 1
                        };
                        assert(old(self).sessions@[oj] == self.sessions@[j]);
                        if oj != ix as int {
                            assert(old(self).sessions@[oj].session_id@ != old(
                                self,
                            ).sessions@[ix as int].session_id@);
                        }
                    }
                }
                flows.unmark_device_in_recovery_flow(removed.device_id.as_str());
                Some(removed.device_id)
            },
            None => None,
        }
    }

    /// Cancels a verification session; same cleanup rule as recovery.
    pub fn cancel_seed_verification(&mut self, flows: &mut FlowRegistry, session_id: &str) -> (r:
        Option<String>)
        requires
            old(self).wf(),
            old(flows).wf(),
        ensures
            final(self).wf(),
            final(flows).wf(),
            r is Some <==> has_ver_session(old(self).verifications@, session_id@),
            r matches Some(d) ==> d@ == old(self).verifications@[ver_session_index(
                old(self).verifications@,
                session_id@,
            )].device_id@ && !has_ver_session(final(self).verifications@, session_id@)
                && !final(flows).in_recovery_flow(d@),
            r is None ==> *final(self) == *old(self) && *final(flows) == *old(flows),
    {
        let found = find_ver_index(&self.verifications, session_id);
        match found {
            Some(ix) => {
                proof {
                    let cix = ver_session_index(self.verifications@, session_id@);
                    assert(0 <= cix < self.verifications@.len()
                        && self.verifications@[cix].session_id@ == session_id@);
                    if cix != ix as int {
                        assert(false);
                    }
                }
                let removed = self.verifications.remove(ix);
                proof {
                    old(self).verifications@.remove_ensures(ix as int);
                    assert forall|i: int, j: int|
                        0 <= i < j < self.verifications@.len() implies #[trigger] self
                        .verifications@[i].session_id@
                        != #[trigger] self.verifications@[j].session_id@ by {
                        let oi = if i < ix as int {
                            i
                        } else {
                            i + 1
                        };
                        let oj = if j < ix as int {
                            j
                        } else {
                            j + 1
                        };
                        assert(old(self).verifications@[oi] == self.verifications@[i]);
                        assert(old(self).verifications@[oj] == self.verifications@[j]);
                    }
                    assert forall|j: int|
                        0 <= j < self.verifications@.len() implies #[trigger] self
                        .verifications@[j].session_id@ != session_id@ by {
                        let oj = if j < ix as int {
                            j
                        } else {
                            j + 1
                        };
                        assert(old(self).verifications@[oj] == self.verifications@[j]);
                        if oj != ix as int {
                            assert(old(self).verifications@[oj].session_id@ != old(
                                self,
                            ).verifications@[ix as int].session_id@);
                        }
                    }
                }
                flows.unmark_device_in_recovery_flow(removed.device_id.as_str());
                Some(removed.device_id)
            },
            None => None,
        }
    }

    /// Drops every verification session of one device and releases its
    /// marker, whatever state the sessions were in.  Reports whether
    /// anything was dropped.
    pub fn force_cleanup_seed_verification(
        &mut self,
        flows: &mut FlowRegistry,
        device_id: &str,
    ) -> (r: bool)
        requires
            old(self).wf(),
            old(flows).wf(),
        ensures
            final(self).wf(),
            final(flows).wf(),
            !final(flows).in_recovery_flow(device_id@),
            forall|j: int|
                0 <= j < final(self).verifications@.len()
                    ==> #[trigger] final(self).verifications@[j].device_id@ != device_id@,
            final(self).sessions == old(self).sessions,
    {
        let mut kept: Vec<SeedVerificationSession> = Vec::new();
        let n = self.verifications.len();
        let mut i: usize = 0;
        let mut dropped = false;
        while i < n
            invariant
                0 <= i <= n,
                n == old(self).verifications@.len(),
                self == old(self),
                forall|j: int|
                    0 <= j < kept@.len() ==> #[trigger] kept@[j].device_id@ != device_id@,
                forall|a: int, b: int|
                    0 <= a < b < kept@.len() ==> #[trigger] kept@[a].session_id@
                        != #[trigger] kept@[b].session_id@,
                forall|a: int|
                    0 <= a < kept@.len() ==> exists|b: int|
                        0 <= b < i && #[trigger] kept@[a] == old(self).verifications@[b],
                forall|a: int, b: int|
                    0 <= a < b < old(self).verifications@.len() ==> #[trigger] old(
                        self,
                    ).verifications@[a].session_id@ != #[trigger] old(
                        self,
                    ).verifications@[b].session_id@,
            decreases n - i,
        {
            if !str_eq(self.verifications[i].device_id.as_str(), device_id) {
                let s = &self.verifications[i];
                let copied = SeedVerificationSession {
                    session_id: s.session_id.clone(),
                    device_id: s.device_id.clone(),
                    word_count: s.word_count,
                    current_word: s.current_word,
                    current_character: s.current_character,
                    is_active: s.is_active,
                    pin_verified: s.pin_verified,
                };
                proof {
                    assert(copied == old(self).verifications@[i as int]);
                    assert forall|a: int, b: int|
                        0 <= a < b < kept@.len() + 1 implies (if a < kept@.len() {
                        kept@[a]
                    } else {
                        copied
                    }).session_id@ != (if b < kept@.len() {
                        kept@[b]
                    } else {
                        copied
                    }).session_id@ by {
                        if b == kept@.len() {
                            let oa = choose|oa: int|
                                0 <= oa < i && kept@[a] == old(self).verifications@[oa];
                            assert(old(self).verifications@[oa].session_id@ != old(
                                self,
                            ).verifications@[i as int].session_id@);
                        }
                    }
                }
                kept.push(copied);
            } else {
                dropped = true;
            }
            i += 1;
        }
        self.verifications = kept;
        flows.unmark_device_in_recovery_flow(device_id);
        dropped
    }

    /// Looks a recovery session up by id.
    pub fn get_recovery_status(&self, session_id: &str) -> (r: Option<RecoveryStatus>)
        requires
            self.wf(),
        ensures
            r is Some <==> has_rec_session(self.sessions@, session_id@),
            r matches Some(st) ==> st.session@ == self.sessions@[rec_session_index(
                self.sessions@,
                session_id@,
            )]@ && st.is_waiting_for_input && st.error is None,
    {
        let found = find_rec_index(&self.sessions, session_id);
        match found {
            Some(ix) => {
                proof {
                    let cix = rec_session_index(self.sessions@, session_id@);
                    assert(0 <= cix < self.sessions@.len() && self.sessions@[cix].session_id@
                        == session_id@);
                    if cix != ix as int {
                        assert(false);
                    }
                }
                let s = &self.sessions[ix];
                Some(
                    RecoveryStatus {
                        session: RecoverySession {
                            session_id: s.session_id.clone(),
                            device_id: s.device_id.clone(),
                            word_count: s.word_count,
                            current_word: s.current_word,
                            current_character: s.current_character,
                            is_active: s.is_active,
                            passphrase_protection: s.passphrase_protection,
                            label: s.label.clone(),
                        },
                        is_waiting_for_input: true,
                        error: None,
                    },
                )
            },
            None => None,
        }
    }

    /// Looks a verification session up by id.
    pub fn get_verification_status(&self, session_id: &str) -> (r: Option<
        SeedVerificationSession,
    >)
        requires
            self.wf(),
        ensures
            r is Some <==> has_ver_session(self.verifications@, session_id@),
            r matches Some(s) ==> s@ == self.verifications@[ver_session_index(
                self.verifications@,
                session_id@,
            )]@,
    {
        let found = find_ver_index(&self.verifications, session_id);
        match found {
            Some(ix) => {
                proof {
                    let cix = ver_session_index(self.verifications@, session_id@);
                    assert(0 <= cix < self.verifications@.len()
                        && self.verifications@[cix].session_id@ == session_id@);
                    if cix != ix as int {
                        assert(false);
                    }
                }
                let s = &self.verifications[ix];
                Some(
                    SeedVerificationSession {
                        session_id: s.session_id.clone(),
                        device_id: s.device_id.clone(),
                        word_count: s.word_count,
                        current_word: s.current_word,
                        current_character: s.current_character,
                        is_active: s.is_active,
                        pin_verified: s.pin_verified,
                    },
                )
            },
            None => None,
        }
    }
}

fn find_rec_index(sessions: &Vec<RecoverySession>, sid: &str) -> (r: Option<usize>)
    ensures
        match r {
            Some(i) => i < sessions@.len() && sessions@[i as int].session_id@ == sid@
                && forall|j: int| 0 <= j < i ==> sessions@[j].session_id@ != sid@,
            None => !has_rec_session(sessions@, sid@),
        },
{
    let mut i: usize = 0;
    while i < sessions.len()
        invariant
            0 <= i <= sessions@.len(),
            forall|j: int| 0 <= j < i ==> sessions@[j].session_id@ != sid@,
        decreases sessions@.len() - i,
    {
        if str_eq(sessions[i].session_id.as_str(), sid) {
            return Some(i);
        }
        i += 1;
    }
    None
}

fn find_ver_index(sessions: &Vec<SeedVerificationSession>, sid: &str) -> (r: Option<usize>)
    ensures
        match r {
            Some(i) => i < sessions@.len() && sessions@[i as int].session_id@ == sid@
                && forall|j: int| 0 <= j < i ==> sessions@[j].session_id@ != sid@,
            None => !has_ver_session(sessions@, sid@),
        },
{
    let mut i: usize = 0;
    while i < sessions.len()
        invariant
            0 <= i <= sessions@.len(),
            forall|j: int| 0 <= j < i ==> sessions@[j].session_id@ != sid@,
        decreases sessions@.len() - i,
    {
        if str_eq(sessions[i].session_id.as_str(), sid) {
            return Some(i);
        }
        i += 1;
    }
    None
}

} // verus!
