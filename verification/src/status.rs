//! Device status evaluation.
//!
//! A `FeatureSnapshot` is the device's point-in-time self-report; the
//! evaluator derives from it which actions the device needs before it can
//! serve ordinary requests: a bootloader update, a firmware update, initial
//! setup, or a PIN unlock.  The checks are mutually prioritized: a device in
//! bootloader mode on an old (`1.x`) bootloader needs a bootloader update
//! and nothing else is reported; a device in bootloader mode on a modern
//! bootloader needs a firmware update to leave bootloader mode; an
//! out-of-box device in normal mode is told about its bootloader first and
//! its firmware only once the bootloader is current.

use vstd::prelude::*;
use vstd::string::StrSliceExecFns;
use vstd::string::StringExecFns;

use crate::hexcodec::{hex_encode, hex_encode_spec};
use crate::path::{dec_str, push_dec_u32};
use crate::strutil::{starts_with, str_eq, str_starts_with};
use crate::version::{lt_2_1_4, parse_semver, parsed_semver, spec_lt_2_1_4};

verus! {

/// A device's self-report, re-fetched on every status check.
pub struct FeatureSnapshot {
    pub label: Option<String>,
    pub vendor: Option<String>,
    pub model: Option<String>,
    pub firmware_variant: Option<String>,
    pub device_id: Option<String>,
    pub language: Option<String>,
    pub bootloader_mode: bool,
    /// Firmware version triple, written `major.minor.patch`.  In bootloader
    /// mode the device reports the bootloader's own version here.
    pub version: String,
    pub firmware_hash: Option<String>,
    pub bootloader_hash: Option<String>,
    pub bootloader_version: Option<String>,
    pub initialized: bool,
    pub imported: Option<bool>,
    pub no_backup: bool,
    pub pin_protection: bool,
    pub pin_cached: bool,
    pub passphrase_protection: bool,
    pub passphrase_cached: bool,
    pub wipe_code_protection: bool,
    pub auto_lock_delay_ms: Option<u64>,
    pub policies: Vec<String>,
}

pub struct BootloaderCheck {
    pub current_version: String,
    pub latest_version: String,
    pub needs_update: bool,
}

pub struct FirmwareCheck {
    pub current_version: String,
    pub latest_version: String,
    pub needs_update: bool,
}

pub struct InitializationCheck {
    pub initialized: bool,
    pub has_backup: bool,
    pub imported: bool,
    pub needs_setup: bool,
}

/// Derived, disposable view over a snapshot; never stored.
pub struct DeviceStatus {
    pub device_id: String,
    pub connected: bool,
    pub features: Option<FeatureSnapshot>,
    pub needs_bootloader_update: bool,
    pub needs_firmware_update: bool,
    pub needs_initialization: bool,
    pub needs_pin_unlock: bool,
    pub bootloader_check: Option<BootloaderCheck>,
    pub firmware_check: Option<FirmwareCheck>,
    pub initialization_check: Option<InitializationCheck>,
}

/// The bootloader version a snapshot stands for.  In bootloader mode the
/// reported version is the bootloader's own; an out-of-box device (firmware
/// `1.0.x`) shipped with a bootloader of the same version; otherwise an
/// explicit field is used if present, else a current bootloader is assumed.
pub open spec fn spec_current_bootloader(f: FeatureSnapshot) -> Seq<char> {
    if f.bootloader_mode {
        f.version@
    } else if starts_with(f.version@, "1.0."@) {
        f.version@
    } else if f.bootloader_version is Some {
        f.bootloader_version->0@
    } else {
        "2.1.4"@
    }
}

/// Whether the snapshot calls for a bootloader update.  In bootloader mode
/// only the legacy `1.x` generation does; in normal mode an out-of-box
/// device always does, and otherwise semantic-version order against the
/// latest bootloader decides, with a prefix test as fallback where the
/// version string does not parse.
pub open spec fn spec_needs_bootloader_update(f: FeatureSnapshot) -> bool {
    if spec_current_bootloader(f) == "Unknown bootloader"@ {
        false
    } else if f.bootloader_mode {
        starts_with(f.version@, "1."@)
    } else if starts_with(f.version@, "1.0."@) {
        true
    } else {
        match parsed_semver(spec_current_bootloader(f)) {
            Some(p) => spec_lt_2_1_4(p),
            None => !starts_with(spec_current_bootloader(f), "2.1."@),
        }
    }
}

/// Whether the snapshot calls for a firmware update.  A device stuck in
/// bootloader mode on a modern bootloader needs firmware to leave it; an
/// out-of-box device must not be told about firmware while its bootloader
/// update is outstanding.
pub open spec fn spec_needs_firmware_update(f: FeatureSnapshot) -> bool {
    if f.bootloader_mode {
        !starts_with(f.version@, "1."@)
    } else if starts_with(f.version@, "1.0."@) {
        false
    } else {
        !starts_with(f.version@, "7.10."@)
    }
}

/// A device needs initialization only in normal mode, and only when it was
/// never initialized or never completed a backup.  A PIN-locked but
/// initialized device does not.
pub open spec fn spec_needs_initialization(f: FeatureSnapshot) -> bool {
    !f.bootloader_mode && (!f.initialized || f.no_backup)
}

/// PIN unlock is owed exactly of an initialized, PIN-protected device whose
/// PIN is not cached, outside bootloader mode.
pub open spec fn spec_needs_pin_unlock(f: FeatureSnapshot) -> bool {
    !f.bootloader_mode && f.initialized && f.pin_protection && !f.pin_cached
}

/// Derives an actionable status from an optional snapshot.  With no
/// snapshot the device counts as disconnected and nothing is demanded of
/// it.
pub fn evaluate_device_status(device_id: String, features: Option<FeatureSnapshot>) -> (r:
    DeviceStatus)
    ensures
        r.device_id == device_id,
        r.connected == features is Some,
        r.features == features,
        features is None ==> !r.needs_bootloader_update && !r.needs_firmware_update
            && !r.needs_initialization && !r.needs_pin_unlock && r.bootloader_check is None
            && r.firmware_check is None && r.initialization_check is None,
        features matches Some(f) ==> {
            &&& r.needs_bootloader_update == spec_needs_bootloader_update(f)
            &&& r.needs_firmware_update == spec_needs_firmware_update(f)
            &&& r.needs_initialization == spec_needs_initialization(f)
            &&& r.needs_pin_unlock == spec_needs_pin_unlock(f)
            &&& r.bootloader_check is Some <==> spec_current_bootloader(f)
                != "Unknown bootloader"@
            &&& r.bootloader_check matches Some(c) ==> c.current_version@
                == spec_current_bootloader(f) && c.latest_version@ == "2.1.4"@ && c.needs_update
                == spec_needs_bootloader_update(f)
            &&& r.firmware_check matches Some(c) ==> c.current_version@ == f.version@
                && c.latest_version@ == "7.10.0"@ && c.needs_update == spec_needs_firmware_update(
                f,
            )
            &&& r.firmware_check is Some
            &&& r.initialization_check is Some
            &&& r.initialization_check matches Some(c) ==> (if !f.bootloader_mode {
                c.initialized == f.initialized && c.has_backup == !f.no_backup && c.imported == (
                f.imported matches Some(true)) && c.needs_setup == (!f.initialized || f.no_backup)
            } else {
                !c.initialized && !c.has_backup && !c.imported && c.needs_setup == starts_with(
                    f.version@,
                    "1."@,
                )
            })
        },
{
    match features {
        None => DeviceStatus {
            device_id,
            connected: false,
            features: None,
            needs_bootloader_update: false,
            needs_firmware_update: false,
            needs_initialization: false,
            needs_pin_unlock: false,
            bootloader_check: None,
            firmware_check: None,
            initialization_check: None,
        },
        Some(f) => {
            let oob_firmware = str_starts_with(f.version.as_str(), "1.0.");
            let legacy_line = str_starts_with(f.version.as_str(), "1.");

            let current_bootloader: String = if f.bootloader_mode {
                f.version.clone()
            } else if oob_firmware {
                f.version.clone()
            } else {
                match &f.bootloader_version {
                    Some(blv) => blv.clone(),
                    None => String::from_str("2.1.4"),
                }
            };
            let unknown_bootloader = str_eq(current_bootloader.as_str(), "Unknown bootloader");

            let needs_bootloader_update: bool = if unknown_bootloader {
                false
            } else if f.bootloader_mode {
                legacy_line
            } else if oob_firmware {
                true
            } else {
                match parse_semver(current_bootloader.as_str()) {
                    Some(p) => lt_2_1_4(p),
                    None => !str_starts_with(current_bootloader.as_str(), "2.1."),
                }
            };

            let needs_firmware_update: bool = if f.bootloader_mode {
                !legacy_line
            } else if oob_firmware {
                false
            } else {
                !str_starts_with(f.version.as_str(), "7.10.")
            };

            let bootloader_check: Option<BootloaderCheck> = if unknown_bootloader {
                None
            } else {
                Some(
                    BootloaderCheck {
                        current_version: current_bootloader,
                        latest_version: String::from_str("2.1.4"),
                        needs_update: needs_bootloader_update,
                    },
                )
            };

            let firmware_check = FirmwareCheck {
                current_version: f.version.clone(),
                latest_version: String::from_str("7.10.0"),
                needs_update: needs_firmware_update,
            };

            let initialization_check: InitializationCheck;
            let needs_initialization: bool;
            let needs_pin_unlock: bool;
            if !f.bootloader_mode {
                let initialized = f.initialized;
                let has_backup = !f.no_backup;
                let imported = match f.imported {
                    Some(b) => b,
                    None => false,
                };
                let needs_setup = !initialized || !has_backup;
                initialization_check = InitializationCheck {
                    initialized,
                    has_backup,
                    imported,
                    needs_setup,
                };
                needs_initialization = needs_setup;
                needs_pin_unlock = initialized && f.pin_protection && !f.pin_cached;
            } else {
                initialization_check = InitializationCheck {
                    initialized: false,
                    has_backup: false,
                    imported: false,
                    needs_setup: legacy_line,
                };
                needs_initialization = false;
                needs_pin_unlock = false;
            }

            DeviceStatus {
                device_id,
                connected: true,
                features: Some(f),
                needs_bootloader_update,
                needs_firmware_update,
                needs_initialization,
                needs_pin_unlock,
                bootloader_check,
                firmware_check: Some(firmware_check),
                initialization_check: Some(initialization_check),
            }
        },
    }
}

} // verus!

verus! {

/// A device in bootloader mode whose version is not of the legacy `1.`
/// generation needs a firmware update, not a bootloader update: leaving
/// bootloader mode takes firmware, and its bootloader is already modern.
pub proof fn lemma_bootloader_mode_modern(f: FeatureSnapshot)
    requires
        f.bootloader_mode,
        !starts_with(f.version@, "1."@),
    ensures
        !spec_needs_bootloader_update(f),
        spec_needs_firmware_update(f),
{
}

/// A device in normal mode on the legacy out-of-box firmware (version
/// beginning `1.0.`) needs a bootloader update first, and is not told
/// about firmware until that is done.
pub proof fn lemma_out_of_box_prioritizes_bootloader(f: FeatureSnapshot)
    requires
        !f.bootloader_mode,
        starts_with(f.version@, "1.0."@),
    ensures
        spec_needs_bootloader_update(f),
        !spec_needs_firmware_update(f),
{
    reveal_strlit("1.0.");
    reveal_strlit("Unknown bootloader");
    assert(spec_current_bootloader(f) == f.version@);
    assert("1.0."@.len() == 4);
    assert(f.version@.subrange(0, 4) == "1.0."@);
    assert(f.version@.subrange(0, 4)[0] == f.version@[0]);
    assert(f.version@[0] == '1');
    assert("Unknown bootloader"@[0] == 'U');
    assert(f.version@ != "Unknown bootloader"@);
}

/// One policy slot of the wire feature report.
pub struct PolicyEntry {
    pub policy_name: Option<String>,
    pub enabled: Option<bool>,
}

/// The wire feature report, every field optional as the device sends it.
pub struct RawFeatures {
    pub label: Option<String>,
    pub vendor: Option<String>,
    pub model: Option<String>,
    pub firmware_variant: Option<String>,
    pub device_id: Option<String>,
    pub language: Option<String>,
    pub bootloader_mode: Option<bool>,
    pub major_version: Option<u32>,
    pub minor_version: Option<u32>,
    pub patch_version: Option<u32>,
    pub firmware_hash: Option<Vec<u8>>,
    pub bootloader_hash: Option<Vec<u8>>,
    pub initialized: Option<bool>,
    pub imported: Option<bool>,
    pub no_backup: Option<bool>,
    pub pin_protection: Option<bool>,
    pub pin_cached: Option<bool>,
    pub passphrase_protection: Option<bool>,
    pub passphrase_cached: Option<bool>,
    pub wipe_code_protection: Option<bool>,
    pub auto_lock_delay_ms: Option<u32>,
    pub policies: Vec<PolicyEntry>,
}

pub open spec fn opt_u32_or_zero(o: Option<u32>) -> u32 {
    match o {
        Some(v) => v,
        None => 0,
    }
}

/// The dotted version triple a raw report stands for.
pub open spec fn spec_version_string(major: u32, minor: u32, patch: u32) -> Seq<char> {
    dec_str(major as nat) + seq!['.'] + dec_str(minor as nat) + seq!['.'] + dec_str(patch as nat)
}

/// Renders a version triple as `major.minor.patch`.
pub fn version_string(major: u32, minor: u32, patch: u32) -> (r: String)
    ensures
        r@ == spec_version_string(major, minor, patch),
{
    proof {
        reveal_strlit(".");
    }
    let mut s = String::new();
    push_dec_u32(&mut s, major);
    s.append(".");
    push_dec_u32(&mut s, minor);
    s.append(".");
    push_dec_u32(&mut s, patch);
    proof {
        assert(s@ =~= spec_version_string(major, minor, patch));
    }
    s
}

pub open spec fn policy_enabled(p: PolicyEntry) -> bool {
    p.enabled == Some(true)
}

pub open spec fn policy_name_of(p: PolicyEntry) -> Seq<char> {
    match p.policy_name {
        Some(n) => n@,
        None => Seq::empty(),
    }
}

/// Shapes the wire feature report into a snapshot: absent flags read as
/// false, absent version parts as zero, the hashes become hex text, and
/// only the enabled policies keep their names.  The report does not
/// carry an explicit bootloader version; the evaluator infers one.
pub fn snapshot_from_raw(raw: RawFeatures) -> (r: FeatureSnapshot)
    ensures
        r.label == raw.label,
        r.vendor == raw.vendor,
        r.model == raw.model,
        r.firmware_variant == raw.firmware_variant,
        r.device_id == raw.device_id,
        r.language == raw.language,
        r.bootloader_mode == (raw.bootloader_mode == Some(true)),
        r.version@ == spec_version_string(
            opt_u32_or_zero(raw.major_version),
            opt_u32_or_zero(raw.minor_version),
            opt_u32_or_zero(raw.patch_version),
        ),
        (match raw.firmware_hash {
            Some(h) => r.firmware_hash matches Some(s) && s@ == hex_encode_spec(h@),
            None => r.firmware_hash is None,
        }),
        (match raw.bootloader_hash {
            Some(h) => r.bootloader_hash matches Some(s) && s@ == hex_encode_spec(h@),
            None => r.bootloader_hash is None,
        }),
        r.bootloader_version is None,
        r.initialized == (raw.initialized == Some(true)),
        r.imported == raw.imported,
        r.no_backup == (raw.no_backup == Some(true)),
        r.pin_protection == (raw.pin_protection == Some(true)),
        r.pin_cached == (raw.pin_cached == Some(true)),
        r.passphrase_protection == (raw.passphrase_protection == Some(true)),
        r.passphrase_cached == (raw.passphrase_cached == Some(true)),
        r.wipe_code_protection == (raw.wipe_code_protection == Some(true)),
        (match raw.auto_lock_delay_ms {
            Some(ms) => r.auto_lock_delay_ms == Some(ms as u64),
            None => r.auto_lock_delay_ms is None,
        }),
        r.policies@.map_values(|n: String| n@) == raw.policies@.filter(
            |p: PolicyEntry| policy_enabled(p),
        ).map_values(|p: PolicyEntry| policy_name_of(p)),
{
    let version = version_string(
        opt_or_zero(raw.major_version),
        opt_or_zero(raw.minor_version),
        opt_or_zero(raw.patch_version),
    );
    let firmware_hash = match &raw.firmware_hash {
        Some(h) => Some(hex_encode(h)),
        None => None,
    };
    let bootloader_hash = match &raw.bootloader_hash {
        Some(h) => Some(hex_encode(h)),
        None => None,
    };
    let mut names: Vec<String> = Vec::new();
    let n = raw.policies.len();
    let mut i: usize = 0;
    proof {
        assert(raw.policies@.take(0) =~= Seq::<PolicyEntry>::empty());
        reveal(Seq::filter);
        assert(names@.map_values(|nm: String| nm@) =~= raw.policies@.take(0).filter(
            |p: PolicyEntry| policy_enabled(p),
        ).map_values(|p: PolicyEntry| policy_name_of(p)));
    }
    while i < n
        invariant
            0 <= i <= n,
            n == raw.policies@.len(),
            names@.map_values(|nm: String| nm@) == raw.policies@.take(i as int).filter(
                |p: PolicyEntry| policy_enabled(p),
            ).map_values(|p: PolicyEntry| policy_name_of(p)),
        decreases n - i,
    {
        let ghost names_before = names@;
        let enabled = match raw.policies[i].enabled {
            Some(b) => b,
            None => false,
        };
        if enabled {
            let name = match &raw.policies[i].policy_name {
                Some(nm) => nm.clone(),
                None => String::new(),
            };
            let ghost namev = name@;
            proof {
                assert(namev == policy_name_of(raw.policies@[i as int]));
            }
            names.push(name);
            proof {
                reveal(Seq::filter);
                let pred = |p: PolicyEntry| policy_enabled(p);
                let namef = |p: PolicyEntry| policy_name_of(p);
                let elem = raw.policies@[i as int];
                let taken = raw.policies@.take(i + 1);
                assert(taken.drop_last() =~= raw.policies@.take(i as int));
                assert(taken.last() == elem);
                assert(pred(elem));
                assert(taken.filter(pred) == raw.policies@.take(i as int).filter(pred).push(
                    elem,
                ));
                assert(names@.map_values(|nm: String| nm@) =~= names_before.map_values(
                    |nm: String| nm@,
                ).push(namev));
                assert(taken.filter(pred).map_values(namef) =~= raw.policies@.take(
                    i as int,
                ).filter(pred).map_values(namef).push(policy_name_of(elem)));
                assert(names@.map_values(|nm: String| nm@) =~= taken.filter(pred).map_values(
                    namef,
                ));
            }
        } else {
            proof {
                reveal(Seq::filter);
                let pred = |p: PolicyEntry| policy_enabled(p);
                let namef = |p: PolicyEntry| policy_name_of(p);
                let taken = raw.policies@.take(i + 1);
                assert(taken.drop_last() =~= raw.policies@.take(i as int));
                assert(taken.last() == raw.policies@[i as int]);
                assert(!pred(raw.policies@[i as int]));
                assert(taken.filter(pred) == raw.policies@.take(i as int).filter(pred));
                assert(names@.map_values(|nm: String| nm@) =~= taken.filter(pred).map_values(
                    namef,
                ));
            }
        }
        i += 1;
    }
    proof {
        assert(raw.policies@.take(n as int) =~= raw.policies@);
    }
    FeatureSnapshot {
        label: raw.label,
        vendor: raw.vendor,
        model: raw.model,
        firmware_variant: raw.firmware_variant,
        device_id: raw.device_id,
        language: raw.language,
        bootloader_mode: match raw.bootloader_mode {
            Some(b) => b,
            None => false,
        },
        version,
        firmware_hash,
        bootloader_hash,
        bootloader_version: None,
        initialized: match raw.initialized {
            Some(b) => b,
            None => false,
        },
        imported: raw.imported,
        no_backup: match raw.no_backup {
            Some(b) => b,
            None => false,
        },
        pin_protection: match raw.pin_protection {
            Some(b) => b,
            None => false,
        },
        pin_cached: match raw.pin_cached {
            Some(b) => b,
            None => false,
        },
        passphrase_protection: match raw.passphrase_protection {
            Some(b) => b,
            None => false,
        },
        passphrase_cached: match raw.passphrase_cached {
            Some(b) => b,
            None => false,
        },
        wipe_code_protection: match raw.wipe_code_protection {
            Some(b) => b,
            None => false,
        },
        auto_lock_delay_ms: match raw.auto_lock_delay_ms {
            Some(ms) => Some(ms as u64),
            None => None,
        },
        policies: names,
    }
}

fn opt_or_zero(o: Option<u32>) -> (r: u32)
    ensures
        r == opt_u32_or_zero(o),
{
    match o {
        Some(v) => v,
        None => 0,
    }
}

} // verus!
