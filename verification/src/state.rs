//! The appliance's states and the LED pattern that announces each of them.

use vstd::prelude::*;
use vstd::std_specs::convert::FromSpecImpl;

verus! {

/// What the appliance is doing. Exactly one value is current at any instant.
#[derive(Clone, Copy, Debug, PartialEq, Eq, Hash, Structural)]
pub enum SystemState {
    /// Start-up, before the first scan.
    Initializing,
    /// Waiting for a card to be inserted.
    NoSdCard,
    /// A card was found; waiting for the button.
    SdCardFound,
    /// The image is being written and read back.
    Flashing,
    /// The last flash was written and read back intact.
    FlashingSucceeded,
    /// The last flash could not be completed or did not read back intact.
    FlashingFailed,
}

/// A pattern shown on the two LEDs. It is always derived from a `SystemState`.
#[derive(Clone, Copy, Debug, PartialEq, Eq, Hash, Structural)]
pub enum LedState {
    Off,
    SolidBoth,
    SolidGreen,
    SolidRed,
    FlashingGreen,
    FlashingRed,
    FlashingGreenRed,
}

impl SystemState {
    /// The pattern that announces this state.
    pub open spec fn led_spec(self) -> LedState {
        match self {
            SystemState::Initializing => LedState::SolidBoth,
            SystemState::NoSdCard => LedState::FlashingRed,
            SystemState::SdCardFound => LedState::FlashingGreen,
            SystemState::Flashing => LedState::FlashingGreenRed,
            SystemState::FlashingSucceeded => LedState::SolidGreen,
            SystemState::FlashingFailed => LedState::SolidRed,
        }
    }

    /// Whether a device identity belongs to this state: it does from the
    /// moment a card is found until the card is given up again.
    pub open spec fn holds_device_spec(self) -> bool {
        self != SystemState::Initializing && self != SystemState::NoSdCard
    }

    /// The pattern that announces this state.
    pub fn led_state(self) -> (led: LedState)
        ensures
            led == self.led_spec(),
    {
        match self {
            SystemState::Initializing => LedState::SolidBoth,
            SystemState::NoSdCard => LedState::FlashingRed,
            SystemState::SdCardFound => LedState::FlashingGreen,
            SystemState::Flashing => LedState::FlashingGreenRed,
            SystemState::FlashingSucceeded => LedState::SolidGreen,
            SystemState::FlashingFailed => LedState::SolidRed,
        }
    }

    /// Whether a device identity belongs to this state.
    pub fn holds_device(self) -> (held: bool)
        ensures
            held == self.holds_device_spec(),
    {
        match self {
            SystemState::Initializing | SystemState::NoSdCard => false,
            _ => true,
        }
    }
}

impl From<SystemState> for LedState {
    fn from(state: SystemState) -> (led: LedState) {
        state.led_state()
    }
}

impl FromSpecImpl<SystemState> for LedState {
    open spec fn obeys_from_spec() -> bool {
        true
    }

    open spec fn from_spec(state: SystemState) -> LedState {
        state.led_spec()
    }
}

/// No two states share a pattern, so the LEDs always tell the states apart.
pub proof fn lemma_led_mapping_is_injective(a: SystemState, b: SystemState)
    requires
        a.led_spec() == b.led_spec(),
    ensures
        a == b,
{
}

/// No state is announced by dark LEDs: a running appliance always shows a
/// pattern.
pub proof fn lemma_led_mapping_never_off(state: SystemState)
    ensures
        state.led_spec() != LedState::Off,
{
}

} // verus!
