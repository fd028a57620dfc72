//! The button edge monitor: turns samples of the input line into presses.
//!
//! The line is sampled at a fixed interval. A press is the step from a sample
//! that shows the button released to one that shows it pressed; nothing else
//! is, so a button that is held down is reported once.

use vstd::prelude::*;
use crate::cell::{ProtocolError, WatchCell};
use crate::led::Level;

verus! {

/// Whether a level of the input line means that the button is pressed. The
/// line is pulled up, so pressed is low.
pub open spec fn is_pressed_spec(level: Level) -> bool {
    level == Level::Low
}

/// Whether a level of the input line means that the button is pressed.
pub fn is_pressed(level: Level) -> (pressed: bool)
    ensures
        pressed == is_pressed_spec(level),
{
    match level {
        Level::Low => true,
        Level::High => false,
    }
}

/// How many presses a run of samples holds, given what the sample before
/// them showed.
pub open spec fn presses_in(last_pressed: bool, samples: Seq<bool>) -> nat
    decreases samples.len(),
{
    if samples.len() == 0 {
        0
    } else {
        let before = samples.drop_last();
        let previous = if before.len() == 0 {
            last_pressed
        } else {
            before.last()
        };
        presses_in(last_pressed, before) + if !previous && samples.last() {
            1nat
        } else {
            0nat
        }
    }
}

/// The monitor's state: what the last sample showed.
#[derive(Clone, Copy, Debug, PartialEq, Eq, Hash, Structural)]
pub struct EdgeDetector {
    pub last_pressed: bool,
}

impl EdgeDetector {
    /// Whether a sample that shows `pressed` is a press.
    pub open spec fn is_edge(self, pressed: bool) -> bool {
        !self.last_pressed && pressed
    }

    /// The monitor after a sample that shows `pressed`.
    pub open spec fn after(self, pressed: bool) -> EdgeDetector {
        EdgeDetector { last_pressed: pressed }
    }

    /// A monitor that starts from a first sample of the line.
    pub fn new(level: Level) -> (detector: EdgeDetector)
        ensures
            detector.last_pressed == is_pressed_spec(level),
    {
        EdgeDetector { last_pressed: is_pressed(level) }
    }

    /// Takes a sample and says whether it is a press.
    pub fn sample(&mut self, level: Level) -> (edge: bool)
        ensures
            edge == old(self).is_edge(is_pressed_spec(level)),
            *final(self) == old(self).after(is_pressed_spec(level)),
    {
        let pressed = is_pressed(level);
        let edge = !self.last_pressed && pressed;
        self.last_pressed = pressed;
        edge
    }

    /// Takes a sample and, if it is a press, writes to the button latch.
    /// Says whether it was a press.
    pub fn poll(&mut self, level: Level, latch: &mut WatchCell<()>) -> (result: Result<
        bool,
        ProtocolError,
    >)
        ensures
            *final(self) == old(self).after(is_pressed_spec(level)),
            old(self).is_edge(is_pressed_spec(level)) && old(latch)@.closed ==> {
                &&& result == Err::<bool, ProtocolError>(ProtocolError::Closed)
                &&& final(latch)@ == old(latch)@
            },
            old(self).is_edge(is_pressed_spec(level)) && !old(latch)@.closed ==> {
                &&& result == Ok::<bool, ProtocolError>(true)
                &&& final(latch)@ == old(latch)@.published(())
            },
            !old(self).is_edge(is_pressed_spec(level)) ==> {
                &&& result == Ok::<bool, ProtocolError>(false)
                &&& final(latch)@ == old(latch)@
            },
    {
        if self.sample(level) {
            match latch.publish(()) {
                Ok(()) => Ok(true),
                Err(e) => Err(e),
            }
        } else {
            Ok(false)
        }
    }
}

/// A button that is held down is reported once: after a sample that shows
/// it pressed, no further sample is a press until one shows it released.
pub proof fn lemma_held_button_is_reported_once(detector: EdgeDetector, samples: Seq<bool>)
    requires
        forall|i: int| 0 <= i < samples.len() ==> samples[i],
    ensures
        presses_in(detector.last_pressed, samples) <= 1,
        detector.last_pressed ==> presses_in(detector.last_pressed, samples) == 0,
        !detector.last_pressed && samples.len() > 0 ==> presses_in(detector.last_pressed, samples)
            == 1,
    decreases samples.len(),
{
    if samples.len() > 0 {
        lemma_held_button_is_reported_once(detector, samples.drop_last());
    }
}

/// Releasing never counts: a sample that shows the button released is no
/// press, whatever came before.
pub proof fn lemma_release_is_no_press(detector: EdgeDetector)
    ensures
        !detector.is_edge(false),
        !detector.after(true).is_edge(true),
        detector.after(false).is_edge(true),
{
}

} // verus!
