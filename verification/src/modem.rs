//! The LTE modem driver's decision core: the linear bring-up state machine,
//! the registration and MQTT result interpretations, and the plan for
//! uploading the TLS credentials in bounded slices. The surrounding task
//! performs the UART transfers and waits; every decision it takes comes
//! from here.

use vstd::prelude::*;

verus! {

/// States of the modem bring-up machine, in bring-up order; any failure
/// falls into `ErrorState`, which rests and re-enters `ResetHardware`.
#[derive(Debug, Clone, Copy, PartialEq, Eq, Structural)]
pub enum ModemState {
    ResetHardware,
    DisableEchoMode,
    GetModelId,
    GetSoftwareVersion,
    GetSimCardStatus,
    GetNetworkSignalQuality,
    GetNetworkInfo,
    EnableGps,
    EnableAssistGps,
    SetModemFunctionality,
    UploadFiles,
    CheckNetworkRegistration,
    MqttOpenState,
    MqttConnectState,
    MqttPublishData,
    ErrorState,
}

/// The state after one cycle in `s`, given whether the cycle's work
/// succeeded. Simple command states retry themselves on failure; the
/// longer phases fall into the error state; the error state always resets.
pub open spec fn spec_next_state(s: ModemState, ok: bool) -> ModemState {
    match s {
        ModemState::ResetHardware => ModemState::DisableEchoMode,
        ModemState::DisableEchoMode => if ok {
            ModemState::GetModelId
        } else {
            s
        },
        ModemState::GetModelId => if ok {
            ModemState::GetSoftwareVersion
        } else {
            s
        },
        ModemState::GetSoftwareVersion => if ok {
            ModemState::GetSimCardStatus
        } else {
            s
        },
        ModemState::GetSimCardStatus => if ok {
            ModemState::GetNetworkSignalQuality
        } else {
            s
        },
        ModemState::GetNetworkSignalQuality => if ok {
            ModemState::GetNetworkInfo
        } else {
            s
        },
        ModemState::GetNetworkInfo => if ok {
            ModemState::EnableGps
        } else {
            s
        },
        ModemState::EnableGps => if ok {
            ModemState::EnableAssistGps
        } else {
            s
        },
        ModemState::EnableAssistGps => if ok {
            ModemState::SetModemFunctionality
        } else {
            s
        },
        ModemState::SetModemFunctionality => if ok {
            ModemState::UploadFiles
        } else {
            s
        },
        ModemState::UploadFiles => if ok {
            ModemState::CheckNetworkRegistration
        } else {
            ModemState::ErrorState
        },
        ModemState::CheckNetworkRegistration => if ok {
            ModemState::MqttOpenState
        } else {
            ModemState::ErrorState
        },
        ModemState::MqttOpenState => if ok {
            ModemState::MqttConnectState
        } else {
            s
        },
        ModemState::MqttConnectState => if ok {
            ModemState::MqttPublishData
        } else {
            s
        },
        ModemState::MqttPublishData => ModemState::MqttPublishData,
        ModemState::ErrorState => ModemState::ResetHardware,
    }
}

/// Advances the bring-up machine by one cycle.
pub fn next_state(s: ModemState, ok: bool) -> (r: ModemState)
    ensures
        r == spec_next_state(s, ok),
{
    match s {
        ModemState::ResetHardware => ModemState::DisableEchoMode,
        ModemState::DisableEchoMode => if ok {
            ModemState::GetModelId
        } else {
            s
        },
        ModemState::GetModelId => if ok {
            ModemState::GetSoftwareVersion
        } else {
            s
        },
        ModemState::GetSoftwareVersion => if ok {
            ModemState::GetSimCardStatus
        } else {
            s
        },
        ModemState::GetSimCardStatus => if ok {
            ModemState::GetNetworkSignalQuality
        } else {
            s
        },
        ModemState::GetNetworkSignalQuality => if ok {
            ModemState::GetNetworkInfo
        } else {
            s
        },
        ModemState::GetNetworkInfo => if ok {
            ModemState::EnableGps
        } else {
            s
        },
        ModemState::EnableGps => if ok {
            ModemState::EnableAssistGps
        } else {
            s
        },
        ModemState::EnableAssistGps => if ok {
            ModemState::SetModemFunctionality
        } else {
            s
        },
        ModemState::SetModemFunctionality => if ok {
            ModemState::UploadFiles
        } else {
            s
        },
        ModemState::UploadFiles => if ok {
            ModemState::CheckNetworkRegistration
        } else {
            ModemState::ErrorState
        },
        ModemState::CheckNetworkRegistration => if ok {
            ModemState::MqttOpenState
        } else {
            ModemState::ErrorState
        },
        ModemState::MqttOpenState => if ok {
            ModemState::MqttConnectState
        } else {
            s
        },
        ModemState::MqttConnectState => if ok {
            ModemState::MqttPublishData
        } else {
            s
        },
        ModemState::MqttPublishData => ModemState::MqttPublishData,
        ModemState::ErrorState => ModemState::ResetHardware,
    }
}

/// What a `+CEREG` status directs the registration wait to do.
#[derive(Debug, Clone, Copy, PartialEq, Eq, Structural)]
pub enum RegistrationAction {
    Registered,
    KeepWaiting,
    GiveUp,
}

/// The registration decision: 1 (home) and 5 (roaming) register, 2 keeps
/// searching, everything else (denied, failed, unknown) gives up.
pub open spec fn spec_registration_action(stat: u8) -> RegistrationAction {
    if stat == 1 || stat == 5 {
        RegistrationAction::Registered
    } else if stat == 2 {
        RegistrationAction::KeepWaiting
    } else {
        RegistrationAction::GiveUp
    }
}

/// Interprets a `+CEREG` network registration status.
pub fn registration_action(stat: u8) -> (r: RegistrationAction)
    ensures
        r == spec_registration_action(stat),
{
    if stat == 1 || stat == 5 {
        RegistrationAction::Registered
    } else if stat == 2 {
        RegistrationAction::KeepWaiting
    } else {
        RegistrationAction::GiveUp
    }
}

/// Errors of the MQTT session commands.
#[derive(Debug, Clone, Copy, PartialEq, Eq, Structural)]
pub enum MqttConnectError {
    CommandFailed,
    StringConversion,
    Timeout,
    ModemError(u8),
}

/// Interprets the result code of a `+QMTOPEN` or `+QMTCONN` report:
/// 0 succeeds, anything else carries the modem's code.
pub fn mqtt_result_outcome(result: u8) -> (r: Result<(), MqttConnectError>)
    ensures
        result == 0 <==> r is Ok,
        result != 0 ==> r == Err::<(), MqttConnectError>(MqttConnectError::ModemError(result)),
{
    if result == 0 {
        Ok(())
    } else {
        Err(MqttConnectError::ModemError(result))
    }
}

/// Size of one upload slice.
pub const UPLOAD_SLICE: usize = 1024;

/// The plan for uploading a credential blob: consecutive slices of at most
/// 1024 bytes, in order, covering the blob exactly.
pub fn upload_chunks(blob: &[u8]) -> (r: Vec<Vec<u8>>)
    ensures
        blob@.len() == 0 ==> r@.len() == 0,
        blob@.len() > 0 ==> r@.len() == (blob@.len() + UPLOAD_SLICE - 1) / (UPLOAD_SLICE as int),
        forall|i: int| 0 <= i < r@.len() ==> (#[trigger] r@[i])@ == blob@.subrange(
            i * UPLOAD_SLICE,
            if (i + 1) * UPLOAD_SLICE <= blob@.len() {
                (i + 1) * (UPLOAD_SLICE as int)
            } else {
                blob@.len() as int
            },
        ),
{
    let n: usize = blob.len();
    let mut r: Vec<Vec<u8>> = Vec::new();
    let mut off: usize = 0;
    while off < n
        invariant
            off <= n,
            n == blob@.len(),
            off == r@.len() * UPLOAD_SLICE,
            forall|i: int| 0 <= i < r@.len() ==> (#[trigger] r@[i])@ == blob@.subrange(
                i * UPLOAD_SLICE,
                if (i + 1) * UPLOAD_SLICE <= blob@.len() {
                    (i + 1) * (UPLOAD_SLICE as int)
                } else {
                    blob@.len() as int
                },
            ),
        decreases n - off,
    {
        let end: usize = if n - off < UPLOAD_SLICE {
            n
        } else {
            off + UPLOAD_SLICE
        };
        let chunk: Vec<u8> = crate::bytesutil::copy_range(blob, off, end);
        let ghost old_r = r@;
        r.push(chunk);
        proof {
            assert(r@.len() == old_r.len() + 1);
            assert forall|i: int| 0 <= i < r@.len() implies (#[trigger] r@[i])@ == blob@.subrange(
                i * UPLOAD_SLICE,
                if (i + 1) * UPLOAD_SLICE <= blob@.len() {
                    (i + 1) * (UPLOAD_SLICE as int)
                } else {
                    blob@.len() as int
                },
            ) by {
                if i < old_r.len() {
                    assert(r@[i] == old_r[i]);
                } else {
                    assert(i == old_r.len());
                    assert(i * UPLOAD_SLICE == off);
                }
            }
        }
        if end == n {
            proof {
                lemma_chunk_count(n as int, r@.len() as int, off as int, end as int);
            }
            return r;
        }
        off = end;
    }
    proof {
        if n > 0 {
            let k = r@.len() as int;
            assert(n as int == k * UPLOAD_SLICE);
            vstd::arithmetic::div_mod::lemma_fundamental_div_mod_converse(
                n as int + UPLOAD_SLICE - 1,
                UPLOAD_SLICE as int,
                k,
                UPLOAD_SLICE - 1,
            );
        } else {
            assert(r@.len() * UPLOAD_SLICE == 0);
            assert(r@.len() == 0) by (nonlinear_arith)
                requires
                    r@.len() * UPLOAD_SLICE == 0,
            ;
        }
    }
    r
}

/// With `k` full slices before it, the slice ending at `n` makes the count
/// the ceiling of `n / slice`.
proof fn lemma_chunk_count(n: int, k: int, off: int, end: int)
    requires
        k >= 1,
        off == (k - 1) * UPLOAD_SLICE,
        off < n,
        end == n,
        n - off <= UPLOAD_SLICE,
    ensures
        k == (n + UPLOAD_SLICE - 1) / (UPLOAD_SLICE as int),
{
    assert((k - 1) * UPLOAD_SLICE == k * UPLOAD_SLICE - UPLOAD_SLICE) by (nonlinear_arith);
    assert(n + UPLOAD_SLICE - 1 < (k + 1) * UPLOAD_SLICE) by (nonlinear_arith)
        requires
            n <= k * (UPLOAD_SLICE as int),
    ;
    assert(n + UPLOAD_SLICE - 1 >= k * UPLOAD_SLICE) by (nonlinear_arith)
        requires
            n > (k - 1) * (UPLOAD_SLICE as int),
    ;
    vstd::arithmetic::div_mod::lemma_div_plus_one(n + UPLOAD_SLICE - 1, UPLOAD_SLICE as int);
    assert(k == (n + UPLOAD_SLICE - 1) / (UPLOAD_SLICE as int)) by {
        vstd::arithmetic::div_mod::lemma_fundamental_div_mod_converse(
            n + UPLOAD_SLICE - 1,
            UPLOAD_SLICE as int,
            k,
            n + UPLOAD_SLICE - 1 - k * UPLOAD_SLICE,
        );
    }
}

/// Worst-case duration of one bring-up phase, in milliseconds, with a
/// responsive modem: registration answered within 10 s, the MQTT open and
/// connect reports within 2 s each, one second of command turnaround and
/// one second of inter-state delay per simple phase, ten seconds of file
/// listing plus transfer settling in the upload phase.
pub open spec fn spec_state_budget_ms(s: ModemState) -> int {
    match s {
        ModemState::ResetHardware => 7000,
        ModemState::DisableEchoMode => 2000,
        ModemState::GetModelId => 2000,
        ModemState::GetSoftwareVersion => 2000,
        ModemState::GetSimCardStatus => 2000,
        ModemState::GetNetworkSignalQuality => 2000,
        ModemState::GetNetworkInfo => 2000,
        ModemState::EnableGps => 2000,
        ModemState::EnableAssistGps => 2000,
        ModemState::SetModemFunctionality => 2000,
        ModemState::UploadFiles => 14000,
        ModemState::CheckNetworkRegistration => 11000,
        ModemState::MqttOpenState => 3000,
        ModemState::MqttConnectState => 3000,
        ModemState::MqttPublishData => 0,
        ModemState::ErrorState => 5000,
    }
}

/// Bring-up timing: with a responsive modem, the happy path from hardware
/// reset to the first publish cycle stays within one minute — the sum of
/// the per-phase budgets is below 60 000 ms.
pub proof fn lemma_bringup_within_one_minute()
    ensures
        spec_state_budget_ms(ModemState::ResetHardware) + spec_state_budget_ms(
            ModemState::DisableEchoMode,
        ) + spec_state_budget_ms(ModemState::GetModelId) + spec_state_budget_ms(
            ModemState::GetSoftwareVersion,
        ) + spec_state_budget_ms(ModemState::GetSimCardStatus) + spec_state_budget_ms(
            ModemState::GetNetworkSignalQuality,
        ) + spec_state_budget_ms(ModemState::GetNetworkInfo) + spec_state_budget_ms(
            ModemState::EnableGps,
        ) + spec_state_budget_ms(ModemState::EnableAssistGps) + spec_state_budget_ms(
            ModemState::SetModemFunctionality,
        ) + spec_state_budget_ms(ModemState::UploadFiles) + spec_state_budget_ms(
            ModemState::CheckNetworkRegistration,
        ) + spec_state_budget_ms(ModemState::MqttOpenState) + spec_state_budget_ms(
            ModemState::MqttConnectState,
        ) <= 60000,
{
}

} // verus!
