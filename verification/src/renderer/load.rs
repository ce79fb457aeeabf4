//! The load phases of a render: 0 = first load (warms the cache), 1 =
//! warmup reload scheduled, 2 = capturing.
use crate::renderer::capture::State;
use crate::text::{chars_of, string_of};
use vstd::prelude::*;

verus! {

/// Real-time grace between the first load and the warmup reload (ms).
pub const WARMUP_MS: i64 = 2000;
/// Deadline for the page to load (ms).
pub const LOAD_TIMEOUT_MS: i64 = 15000;

/// What advancing the phase asks for.
pub enum PhaseAction {
    /// Turn console capture on and schedule the warmup reload.
    ScheduleReload,
    /// Bind the user frame, pause virtual time and start capturing.
    Prime,
    /// Nothing to do.
    Nothing,
}

/// What the load deadline does.
pub enum TimeoutAction {
    /// Capture already runs: nothing.
    Ignore,
    /// Report the timeout and exit with status 1.
    Fail,
    /// Report the timeout and force the phases on to capture.
    ProceedTolerant,
}

/// The phase after an advance from `phase`.
pub open spec fn next_phase(phase: u8, reload_fired: bool) -> u8 {
    if phase == 0 {
        1
    } else if phase == 1 && reload_fired {
        2
    } else {
        phase
    }
}

/// Moves the load on: 0 → 1 schedules the warmup reload; 1 → 2 starts
/// capture, but only once the reload was issued; phase 2 stays.
pub fn advance_phase(phase: &mut u8, reload_fired: bool) -> (r: PhaseAction)
    ensures
        *final(phase) == next_phase(*old(phase), reload_fired),
        r is ScheduleReload <==> *old(phase) == 0,
        r is Prime <==> *old(phase) == 1 && reload_fired,
        r is Nothing <==> !(*old(phase) == 0 || (*old(phase) == 1 && reload_fired)),
{
    match *phase {
        0 => {
            *phase = 1;
            PhaseAction::ScheduleReload
        },
        1 => {
            if !reload_fired {
                return PhaseAction::Nothing;
            }
            *phase = 2;
            PhaseAction::Prime
        },
        _ => PhaseAction::Nothing,
    }
}

/// Whether the end of a frame's load advances the phase: only for the
/// user's sub-frame (not the host page), and only when the load is not
/// driven by the page's dom-ready signal (tolerant mode).
pub fn advances_on_load_end(tolerant: bool, is_main_frame: bool) -> (r: bool)
    ensures
        r == (!tolerant && !is_main_frame),
{
    !tolerant && !is_main_frame
}

/// The warmup reload is issued.
pub fn reload_fired(state: &mut State)
    requires
        old(state).wf(),
    ensures
        final(state).wf(),
        *final(state) == (State { reload_fired: true, ..*old(state) }),
{
    state.reload_fired = true;
}

/// The load deadline passed in `phase`: nothing once capturing; otherwise
/// fail, or with `tolerant` proceed with what loaded.
pub fn load_timeout(phase: u8, tolerant: bool) -> (r: TimeoutAction)
    ensures
        phase >= 2 ==> r is Ignore,
        phase < 2 && !tolerant ==> r is Fail,
        phase < 2 && tolerant ==> r is ProceedTolerant,
{
    if phase >= 2 {
        TimeoutAction::Ignore
    } else if !tolerant {
        TimeoutAction::Fail
    } else {
        TimeoutAction::ProceedTolerant
    }
}

/// The error reported at the load deadline.
pub fn load_timeout_message(tolerant: bool) -> (r: String)
    ensures
        !tolerant ==> r@ == "load timeout after 15000ms (pass --tolerant to proceed anyway)"@,
        tolerant ==> r@ == "load timeout after 15000ms \u{2014} proceeding tolerant"@,
{
    if !tolerant {
        string_of(&chars_of("load timeout after 15000ms (pass --tolerant to proceed anyway)"))
    } else {
        string_of(&chars_of("load timeout after 15000ms \u{2014} proceeding tolerant"))
    }
}

/// Phases never go back, and capture (phase 2) is reached only after the
/// warmup reload was issued.
pub proof fn law_phase_monotone(phase: u8, reload_fired: bool)
    ensures
        phase <= next_phase(phase, reload_fired),
        next_phase(phase, reload_fired) == 2 && phase != 2 ==> phase == 1 && reload_fired,
{
}

} // verus!
