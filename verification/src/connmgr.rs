//! Dual-transport connection manager: tracks Wi-Fi and LTE availability and
//! decides transport switches with a 10-second debounce on preference
//! switches. A switch runs in two phases: it first publishes `Switching`
//! for a quiet window, then commits the new transport.

use vstd::prelude::*;

verus! {

/// Minimum interval between a committed switch and a later switch back to a
/// merely preferred (not forced) transport.
pub const SWITCH_DEBOUNCE_MS: u64 = 10_000;

/// An availability change reported by a transport driver.
#[derive(Debug, Clone, Copy, PartialEq, Eq, Structural)]
pub enum ConnectionEvent {
    WiFiConnected,
    WiFiDisconnected,
    LteConnected,
    LteDisconnected,
    LteRegistered,
    LteUnregistered,
}

/// Which uplink carries traffic.
#[derive(Debug, Clone, Copy, PartialEq, Eq, Structural)]
pub enum ActiveConnection {
    Unconnected,
    WiFi,
    Lte,
    Switching,
}

/// The manager's state.
#[derive(Debug, Clone, Copy, PartialEq, Eq, Structural)]
pub struct ConnectionStatus {
    pub active: ActiveConnection,
    pub wifi_available: bool,
    pub lte_available: bool,
    pub last_switch: Option<u64>,
    pub switch_count: u32,
}

/// A status whose recorded switch time does not lie in the future.
pub open spec fn status_wf(s: ConnectionStatus, now_ms: u64) -> bool {
    match s.last_switch {
        Some(t) => t <= now_ms,
        None => true,
    }
}

impl ConnectionStatus {
    /// The initial state: nothing available, nothing active.
    pub fn init() -> (r: ConnectionStatus)
        ensures
            r.active == ActiveConnection::Unconnected,
            !r.wifi_available,
            !r.lte_available,
            r.last_switch is None,
            r.switch_count == 0,
    {
        ConnectionStatus {
            active: ActiveConnection::Unconnected,
            wifi_available: false,
            lte_available: false,
            last_switch: None,
            switch_count: 0,
        }
    }
}

/// A committed switch happened less than the debounce window ago.
pub open spec fn spec_recently_switched(s: ConnectionStatus, now_ms: u64) -> bool {
    match s.last_switch {
        Some(t) => now_ms - t < SWITCH_DEBOUNCE_MS,
        None => false,
    }
}

/// Whether the debounce window still covers the last committed switch.
pub fn is_recently_switched(s: &ConnectionStatus, now_ms: u64) -> (r: bool)
    requires
        status_wf(*s, now_ms),
    ensures
        r == spec_recently_switched(*s, now_ms),
{
    match s.last_switch {
        Some(t) => now_ms - t < SWITCH_DEBOUNCE_MS,
        None => false,
    }
}

/// Wi-Fi is available, not active, and the debounce window has passed.
pub open spec fn spec_should_prefer_wifi(s: ConnectionStatus, now_ms: u64) -> bool {
    s.wifi_available && s.active != ActiveConnection::WiFi && !spec_recently_switched(s, now_ms)
}

/// Whether the manager should move to Wi-Fi now.
pub fn should_prefer_wifi(s: &ConnectionStatus, now_ms: u64) -> (r: bool)
    requires
        status_wf(*s, now_ms),
    ensures
        r == spec_should_prefer_wifi(*s, now_ms),
{
    s.wifi_available && !(s.active == ActiveConnection::WiFi) && !is_recently_switched(s, now_ms)
}

/// A manual switch request is honoured only for an available transport.
pub open spec fn spec_can_switch_to(s: ConnectionStatus, target: ActiveConnection) -> bool {
    match target {
        ActiveConnection::WiFi => s.wifi_available,
        ActiveConnection::Lte => s.lte_available,
        ActiveConnection::Unconnected => true,
        ActiveConnection::Switching => false,
    }
}

/// Whether a manual request for `target` is honoured.
pub fn can_switch_to(s: &ConnectionStatus, target: ActiveConnection) -> (r: bool)
    ensures
        r == spec_can_switch_to(*s, target),
{
    match target {
        ActiveConnection::WiFi => s.wifi_available,
        ActiveConnection::Lte => s.lte_available,
        ActiveConnection::Unconnected => true,
        ActiveConnection::Switching => false,
    }
}

/// What `handle_event` decides: the updated state, and the transport to
/// switch to (two-phase) when a switch is due.
pub open spec fn spec_handle_event(s: ConnectionStatus, ev: ConnectionEvent, now_ms: u64) -> (
    ConnectionStatus,
    Option<ActiveConnection>,
) {
    match ev {
        ConnectionEvent::WiFiConnected => {
            let s1 = ConnectionStatus { wifi_available: true, ..s };
            if spec_should_prefer_wifi(s1, now_ms) {
                (s1, Some(ActiveConnection::WiFi))
            } else {
                (s1, None)
            }
        },
        ConnectionEvent::WiFiDisconnected => {
            let s1 = ConnectionStatus { wifi_available: false, ..s };
            if s1.active == ActiveConnection::WiFi {
                if s1.lte_available {
                    (s1, Some(ActiveConnection::Lte))
                } else {
                    (ConnectionStatus { active: ActiveConnection::Unconnected, ..s1 }, None)
                }
            } else {
                (s1, None)
            }
        },
        ConnectionEvent::LteConnected | ConnectionEvent::LteRegistered => {
            let s1 = ConnectionStatus { lte_available: true, ..s };
            if s1.active == ActiveConnection::Unconnected && !s1.wifi_available {
                (s1, Some(ActiveConnection::Lte))
            } else {
                (s1, None)
            }
        },
        ConnectionEvent::LteDisconnected | ConnectionEvent::LteUnregistered => {
            let s1 = ConnectionStatus { lte_available: false, ..s };
            if s1.active == ActiveConnection::Lte {
                if s1.wifi_available {
                    (s1, Some(ActiveConnection::WiFi))
                } else {
                    (ConnectionStatus { active: ActiveConnection::Unconnected, ..s1 }, None)
                }
            } else {
                (s1, None)
            }
        },
    }
}

/// Folds one availability event into the state. Returns the transport a
/// switch should move to, if one is due; the caller then runs the two-phase
/// switch (`begin_switch`, quiet wait, `commit_switch`).
pub fn handle_event(s: &mut ConnectionStatus, ev: ConnectionEvent, now_ms: u64) -> (r: Option<
    ActiveConnection,
>)
    requires
        status_wf(*old(s), now_ms),
    ensures
        (*final(s), r) == spec_handle_event(*old(s), ev, now_ms),
        status_wf(*final(s), now_ms),
{
    match ev {
        ConnectionEvent::WiFiConnected => {
            s.wifi_available = true;
            if should_prefer_wifi(s, now_ms) {
                Some(ActiveConnection::WiFi)
            } else {
                None
            }
        },
        ConnectionEvent::WiFiDisconnected => {
            s.wifi_available = false;
            if s.active == ActiveConnection::WiFi {
                if s.lte_available {
                    Some(ActiveConnection::Lte)
                } else {
                    s.active = ActiveConnection::Unconnected;
                    None
                }
            } else {
                None
            }
        },
        ConnectionEvent::LteConnected | ConnectionEvent::LteRegistered => {
            s.lte_available = true;
            if s.active == ActiveConnection::Unconnected && !s.wifi_available {
                Some(ActiveConnection::Lte)
            } else {
                None
            }
        },
        ConnectionEvent::LteDisconnected | ConnectionEvent::LteUnregistered => {
            s.lte_available = false;
            if s.active == ActiveConnection::Lte {
                if s.wifi_available {
                    Some(ActiveConnection::WiFi)
                } else {
                    s.active = ActiveConnection::Unconnected;
                    None
                }
            } else {
                None
            }
        },
    }
}

/// Opens the quiet window of a switch: while it lasts, the published state
/// is `Switching`. A switch to the transport already active is a no-op and
/// returns false.
pub fn begin_switch(s: &mut ConnectionStatus, target: ActiveConnection) -> (r: bool)
    ensures
        r == (old(s).active != target),
        r ==> *final(s) == (ConnectionStatus { active: ActiveConnection::Switching, ..*old(s) }),
        !r ==> *final(s) == *old(s),
{
    if s.active == target {
        return false;
    }
    s.active = ActiveConnection::Switching;
    true
}

/// Commits a switch at `now_ms`: the target becomes active, the switch time
/// is recorded and the switch counter grows by one.
pub fn commit_switch(s: &mut ConnectionStatus, target: ActiveConnection, now_ms: u64)
    requires
        old(s).switch_count < u32::MAX,
    ensures
        *final(s) == (ConnectionStatus {
            active: target,
            last_switch: Some(now_ms),
            switch_count: (old(s).switch_count + 1) as u32,
            ..*old(s)
        }),
        status_wf(*final(s), now_ms),
{
    s.active = target;
    s.last_switch = Some(now_ms);
    s.switch_count = s.switch_count + 1;
}

/// Debounce law: a preference switch to Wi-Fi is only ever started when no
/// switch was committed in the last ten seconds, so two committed
/// preference switches are always at least the debounce window apart.
/// (Failover switches after a disconnect are exempt by design: losing the
/// active transport moves traffic at once.)
pub proof fn lemma_wifi_preference_debounced(s: ConnectionStatus, now_ms: u64)
    requires
        status_wf(s, now_ms),
        spec_handle_event(s, ConnectionEvent::WiFiConnected, now_ms).1 == Some(
            ActiveConnection::WiFi,
        ),
    ensures
        match s.last_switch {
            Some(t) => now_ms - t >= SWITCH_DEBOUNCE_MS,
            None => true,
        },
{
}

} // verus!
