//! The LED status driver: which pattern is shown, and what that means for
//! the two output lines at each moment.
//!
//! The driver reacts to two things: a new state in the status cell and the
//! tick of a timer. After either it says what level each line has to have.
//! The LEDs are lit by the low level.

use vstd::prelude::*;
use crate::cell::{ProtocolError, WatchCell};
use crate::state::{LedState, SystemState};

verus! {

/// The logic level of a digital line.
#[derive(Clone, Copy, Debug, PartialEq, Eq, Hash, Structural)]
pub enum Level {
    Low,
    High,
}

/// The levels of the two output lines.
#[derive(Clone, Copy, Debug, PartialEq, Eq, Hash, Structural)]
pub struct PinLevels {
    pub red: Level,
    pub green: Level,
}

/// What the driver reacts to.
#[derive(Clone, Copy, Debug, PartialEq, Eq, Hash, Structural)]
pub enum LedEvent {
    /// The status cell holds this state now.
    StatusChanged(SystemState),
    /// The timer ticked.
    Tick,
}

/// The level that switches an LED on or off: on is low.
pub open spec fn level_for_spec(lit: bool) -> Level {
    if lit {
        Level::Low
    } else {
        Level::High
    }
}

/// The level that switches an LED on or off: on is low.
pub fn level_for(lit: bool) -> (level: Level)
    ensures
        level == level_for_spec(lit),
{
    if lit {
        Level::Low
    } else {
        Level::High
    }
}

impl LedState {
    /// Whether the red LED is lit in this pattern at this phase.
    pub open spec fn red_lit(self, phase: bool) -> bool {
        match self {
            LedState::Off => false,
            LedState::SolidBoth => true,
            LedState::SolidGreen => false,
            LedState::SolidRed => true,
            LedState::FlashingGreen => false,
            LedState::FlashingRed => phase,
            LedState::FlashingGreenRed => phase,
        }
    }

    /// Whether the green LED is lit in this pattern at this phase.
    pub open spec fn green_lit(self, phase: bool) -> bool {
        match self {
            LedState::Off => false,
            LedState::SolidBoth => true,
            LedState::SolidGreen => true,
            LedState::SolidRed => false,
            LedState::FlashingGreen => phase,
            LedState::FlashingRed => false,
            LedState::FlashingGreenRed => !phase,
        }
    }

    /// Whether the pattern looks the same at both phases.
    pub open spec fn is_solid(self) -> bool {
        self == LedState::Off || self == LedState::SolidBoth || self == LedState::SolidGreen
            || self == LedState::SolidRed
    }

    /// The levels of the two lines in this pattern at this phase.
    pub open spec fn pins_spec(self, phase: bool) -> PinLevels {
        PinLevels {
            red: level_for_spec(self.red_lit(phase)),
            green: level_for_spec(self.green_lit(phase)),
        }
    }

    /// The levels of the two lines in this pattern at this phase.
    pub fn pins(self, phase: bool) -> (levels: PinLevels)
        ensures
            levels == self.pins_spec(phase),
    {
        let (red, green) = match self {
            LedState::Off => (false, false),
            LedState::SolidBoth => (true, true),
            LedState::SolidGreen => (false, true),
            LedState::SolidRed => (true, false),
            LedState::FlashingGreen => (false, phase),
            LedState::FlashingRed => (phase, false),
            LedState::FlashingGreenRed => (phase, !phase),
        };
        PinLevels { red: level_for(red), green: level_for(green) }
    }
}

/// The driver's state: the pattern that is shown and the phase of its
/// flashing.
#[derive(Clone, Copy, Debug, PartialEq, Eq, Hash, Structural)]
pub struct LedDriver {
    pub led_state: LedState,
    pub flash_phase: bool,
}

impl LedDriver {
    /// The driver as it starts: both LEDs lit.
    pub open spec fn initial() -> LedDriver {
        LedDriver { led_state: LedState::SolidBoth, flash_phase: false }
    }

    /// The driver after it saw `state` in the status cell. A pattern that
    /// is new starts at the first phase; one that is shown already goes on
    /// undisturbed.
    pub open spec fn after_status(self, state: SystemState) -> LedDriver {
        if state.led_spec() != self.led_state {
            LedDriver { led_state: state.led_spec(), flash_phase: false }
        } else {
            self
        }
    }

    /// The driver after a tick of the timer.
    pub open spec fn after_tick(self) -> LedDriver {
        LedDriver { flash_phase: !self.flash_phase, ..self }
    }

    /// The driver after `event`.
    pub open spec fn after(self, event: LedEvent) -> LedDriver {
        match event {
            LedEvent::StatusChanged(state) => self.after_status(state),
            LedEvent::Tick => self.after_tick(),
        }
    }

    /// The levels that the driver puts on the lines.
    pub open spec fn levels(self) -> PinLevels {
        self.led_state.pins_spec(self.flash_phase)
    }

    /// The driver as it starts: both LEDs lit.
    pub fn new() -> (driver: LedDriver)
        ensures
            driver == LedDriver::initial(),
    {
        LedDriver { led_state: LedState::SolidBoth, flash_phase: false }
    }

    /// Takes note of the state that the status cell holds now.
    pub fn observe(&mut self, state: SystemState)
        ensures
            *final(self) == old(self).after_status(state),
    {
        let led_state = state.led_state();
        if led_state != self.led_state {
            self.led_state = led_state;
            self.flash_phase = false;
        }
    }

    /// Takes note of a tick of the timer.
    pub fn tick(&mut self)
        ensures
            *final(self) == old(self).after_tick(),
    {
        self.flash_phase = !self.flash_phase;
    }

    /// The levels to put on the two lines now.
    pub fn render(&self) -> (levels: PinLevels)
        ensures
            levels == self.levels(),
    {
        self.led_state.pins(self.flash_phase)
    }

    /// Handles one event and says what the lines have to show after it.
    pub fn step(&mut self, event: LedEvent) -> (levels: PinLevels)
        ensures
            *final(self) == old(self).after(event),
            levels == final(self).levels(),
    {
        match event {
            LedEvent::StatusChanged(state) => self.observe(state),
            LedEvent::Tick => self.tick(),
        }
        self.render()
    }

    /// Takes the state from the status cell if it changed since `reader`
    /// last took it, and says what the lines have to show then. The driver
    /// only ever shows what it last took: a state that was superseded before
    /// it was taken is never shown.
    pub fn follow(&mut self, status: &mut WatchCell<SystemState>, reader: usize) -> (result: Result<
        PinLevels,
        ProtocolError,
    >)
        ensures
            match old(status)@.refusal(reader as int) {
                Some(e) => {
                    &&& result == Err::<PinLevels, ProtocolError>(e)
                    &&& *final(self) == *old(self)
                    &&& final(status)@ == old(status)@
                },
                None => {
                    &&& *final(self) == match old(status)@.taken(reader as int) {
                        Some(state) => old(self).after_status(state),
                        None => *old(self),
                    }
                    &&& result == Ok::<PinLevels, ProtocolError>(final(self).levels())
                    &&& final(status)@ == old(status)@.acknowledged(reader as int)
                },
            },
    {
        match status.take_if_changed(reader) {
            Err(e) => Err(e),
            Ok(Some(state)) => {
                self.observe(state);
                Ok(self.render())
            },
            Ok(None) => Ok(self.render()),
        }
    }
}

/// Seeing the same state again changes nothing: without a tick in between,
/// the lines keep the levels they had.
pub proof fn lemma_same_state_renders_same_levels(driver: LedDriver, state: SystemState)
    ensures
        driver.after_status(state).after_status(state) == driver.after_status(state),
        driver.after_status(state).after_status(state).levels() == driver.after_status(
            state,
        ).levels(),
{
}

/// After a state was seen the driver shows the pattern of that state, and a
/// tick never changes the pattern.
pub proof fn lemma_pattern_follows_last_seen_state(driver: LedDriver, state: SystemState)
    ensures
        driver.after_status(state).led_state == state.led_spec(),
        driver.after_tick().led_state == driver.led_state,
{
}

/// A solid pattern ignores the phase; the two-colour pattern always lights
/// exactly one LED, and a one-colour flashing pattern never lights the other.
pub proof fn lemma_patterns_use_the_phase_as_described(pattern: LedState, phase: bool)
    ensures
        pattern.is_solid() ==> pattern.pins_spec(phase) == pattern.pins_spec(!phase),
        pattern == LedState::FlashingGreenRed ==> pattern.red_lit(phase) != pattern.green_lit(
            phase,
        ),
        pattern == LedState::FlashingGreen ==> !pattern.red_lit(phase) && pattern.green_lit(phase)
            == phase,
        pattern == LedState::FlashingRed ==> !pattern.green_lit(phase) && pattern.red_lit(phase)
            == phase,
        !pattern.is_solid() ==> pattern.pins_spec(phase) != pattern.pins_spec(!phase),
{
}

} // verus!
