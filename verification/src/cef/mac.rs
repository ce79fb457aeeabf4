//! The send-event flag of the macOS application object that Chromium
//! queries while an event is being dispatched.
use vstd::prelude::*;

verus! {

/// The flag once a dispatch has begun.
pub open spec fn flag_after_begin(flag: bool) -> bool {
    true
}

/// The flag once a dispatch that found `was` ends.
pub open spec fn flag_after_end(flag: bool, was: bool) -> bool {
    if !was {
        false
    } else {
        flag
    }
}

/// The application object's state.
pub struct CapApplicationIvars {
    pub handling_send_event: bool,
}

impl CapApplicationIvars {
    /// A fresh state: no event being dispatched.
    pub fn new() -> (r: CapApplicationIvars)
        ensures
            !r.handling_send_event,
    {
        CapApplicationIvars { handling_send_event: false }
    }

    /// Entering event dispatch: the flag is raised; returns whether it was
    /// already up (a nested dispatch).
    pub fn begin_send_event(&mut self) -> (was: bool)
        ensures
            was == old(self).handling_send_event,
            final(self).handling_send_event == flag_after_begin(old(self).handling_send_event),
    {
        let was = self.handling_send_event;
        if !was {
            self.handling_send_event = true;
        }
        was
    }

    /// Leaving event dispatch: an outermost dispatch lowers the flag, a
    /// nested one leaves it up.
    pub fn end_send_event(&mut self, was: bool)
        ensures
            final(self).handling_send_event == flag_after_end(old(self).handling_send_event, was),
    {
        if !was {
            self.handling_send_event = false;
        }
    }

    /// `setHandlingSendEvent:`.
    pub fn set_handling_send_event(&mut self, handling: bool)
        ensures
            final(self).handling_send_event == handling,
    {
        self.handling_send_event = handling;
    }

    /// `isHandlingSendEvent`.
    pub fn is_handling_send_event(&self) -> (r: bool)
        ensures
            r == self.handling_send_event,
    {
        self.handling_send_event
    }
}

/// A dispatch restores the flag it found: beginning and then ending it
/// leaves the flag as it was before.
pub proof fn law_dispatch_restores_flag(before: bool)
    ensures
        flag_after_end(flag_after_begin(before), before) == before,
{
}

} // verus!
