//! One substep of the fixed-rate system loop.
//!
//! The loop itself lives with the host: each tick it polls the keypad,
//! runs CPU_SPEED_FACTOR substeps, relays each snapshot to the display
//! (only when pixels changed) and sound (always), calls `update_timers`
//! once, and sleeps to the tick boundary.  The decision taken at each
//! substep, quit or execute with the polled keys, is made here.

use vstd::prelude::*;

use crate::keypad::KeypadState;
use crate::output::Output;
use crate::processor::{spec_step, Processor};

verus! {

/// Ticks per second of the timer clock.
pub const FREQUENCY: u32 = 60;

/// Processor substeps per timer tick; the CPU runs this many times
/// faster than the timers.
pub const CPU_SPEED_FACTOR: u32 = 9;

/// What one substep decided: stop the loop, or relay this snapshot.
pub enum StepOutcome {
    Quit,
    Ran(Output),
}

/// One substep of the system loop: the quit key stops everything before
/// the processor moves; any other poll result drives one processor step,
/// whose snapshot is handed back for the display and sound collaborators.
pub fn system_step(processor: &mut Processor, keypad: KeypadState) -> (r: StepOutcome)
    requires
        old(processor).wf(),
    ensures
        final(processor).wf(),
        keypad is PressedEscape ==> r is Quit && *final(processor) == *old(processor),
        keypad matches KeypadState::PressedKeycodes(keys) ==> (r matches StepOutcome::Ran(out)
            && (exists|rnd: u8| final(processor)@ == #[trigger] spec_step(
            old(processor)@,
            keys@,
            rnd,
        )) && out.is_sound_on == (final(processor)@.sound_timer > 0) && out.grid() == final(
            processor)@.pixels && out.have_pixels_changed
            == final(processor)@.have_pixels_changed),
{
    match keypad {
        KeypadState::PressedEscape => StepOutcome::Quit,
        KeypadState::PressedKeycodes(keys) => {
            let output = processor.execute_instruction(&keys);
            StepOutcome::Ran(output)
        },
    }
}

} // verus!
