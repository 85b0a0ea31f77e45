//! The device lifecycle state machine.
//!
//! The device owns the `booting`/`offline` axis; the desktop owns the sendable states. This type
//! turns lifecycle events into the single companion state the device displays, and signals when
//! that state changed so the caller can emit a `StateReport`.

use crate::model::{CompanionState, SendableState};
use vstd::prelude::*;

verus! {

/// An event that may change the device's displayed state.
#[derive(Debug, Clone, Copy, PartialEq, Eq, Structural)]
pub enum DeviceEvent {
    /// Boot / self-test finished; the device is ready to show content.
    BootComplete,
    /// A host session became active.
    LinkUp,
    /// The host session was lost (unplug, timeout, or `Bye`).
    LinkDown,
    /// The host commanded a sendable state.
    SetState(SendableState),
}

/// The state an event leads to from `current`.
pub open spec fn next_state(current: CompanionState, event: DeviceEvent) -> CompanionState {
    match event {
        DeviceEvent::BootComplete => if current is Booting {
            CompanionState::Offline
        } else {
            current
        },
        DeviceEvent::LinkDown => CompanionState::Offline,
        DeviceEvent::LinkUp => current,
        DeviceEvent::SetState(desired) => desired.companion(),
    }
}

/// The device lifecycle state machine. Starts in [`CompanionState::Booting`].
#[derive(Debug, Clone, Copy, PartialEq, Eq, Structural)]
pub struct DeviceState {
    current: CompanionState,
}

impl DeviceState {
    /// The displayed state.
    pub closed spec fn view(self) -> CompanionState {
        self.current
    }

    /// A freshly-powered device, showing the boot scene.
    pub fn new() -> (d: Self)
        ensures
            d.view() == CompanionState::Booting,
    {
        DeviceState { current: CompanionState::Booting }
    }

    /// The companion state the device is currently displaying.
    pub fn current(&self) -> (c: CompanionState)
        ensures
            c == self.view(),
    {
        self.current
    }

    /// Applies `event`. Returns `Some(new_state)` iff the displayed state changed (the caller
    /// should then emit a `StateReport`); `None` if the event left the state unchanged.
    pub fn apply(&mut self, event: DeviceEvent) -> (r: Option<CompanionState>)
        ensures
            final(self).view() == next_state(old(self).view(), event),
            r == (if next_state(old(self).view(), event) != old(self).view() {
                Some(next_state(old(self).view(), event))
            } else {
                None::<CompanionState>
            }),
    {
        let next = match event {
            DeviceEvent::BootComplete => {
                if matches!(self.current, CompanionState::Booting) {
                    CompanionState::Offline
                } else {
                    self.current
                }
            },
            DeviceEvent::LinkDown => CompanionState::Offline,
            DeviceEvent::LinkUp => self.current,
            DeviceEvent::SetState(desired) => desired.to_companion(),
        };
        if next != self.current {
            self.current = next;
            Some(next)
        } else {
            None
        }
    }
}

impl Default for DeviceState {
    fn default() -> (d: Self)
        ensures
            d.view() == CompanionState::Booting,
    {
        Self::new()
    }
}

/// Losing the link always shows `offline`.
pub proof fn law_link_down_is_offline(current: CompanionState)
    ensures
        next_state(current, DeviceEvent::LinkDown) == CompanionState::Offline,
{
}

/// A host command can never put the device in a device-originated state (`booting`, `offline`).
pub proof fn law_host_cannot_command_device_states(current: CompanionState, desired: SendableState)
    ensures
        !next_state(current, DeviceEvent::SetState(desired)).device_originated(),
        next_state(current, DeviceEvent::SetState(desired)) == desired.companion(),
{
}

/// Boot completion moves `booting` to `offline` and changes nothing afterwards.
pub proof fn law_boot_completes_once(current: CompanionState)
    ensures
        current is Booting ==> next_state(current, DeviceEvent::BootComplete)
            == CompanionState::Offline,
        !(current is Booting) ==> next_state(current, DeviceEvent::BootComplete) == current,
        next_state(next_state(current, DeviceEvent::BootComplete), DeviceEvent::BootComplete)
            == next_state(current, DeviceEvent::BootComplete),
{
}

/// Once the device has left `booting`, no event brings it back.
pub proof fn law_booting_is_never_reentered(current: CompanionState, event: DeviceEvent)
    requires
        !(current is Booting),
    ensures
        !(next_state(current, event) is Booting),
{
}

/// A new link changes nothing on its own.
pub proof fn law_link_up_is_inert(current: CompanionState)
    ensures
        next_state(current, DeviceEvent::LinkUp) == current,
{
}

/// Applying the same event twice changes the state at most once: every event is idempotent.
pub proof fn law_events_are_idempotent(current: CompanionState, event: DeviceEvent)
    ensures
        next_state(next_state(current, event), event) == next_state(current, event),
{
}

} // verus!
