//! What a paint of the browser means for the capture loop.
use crate::renderer::capture::{State, MAX_INVALIDATES};
use crate::text::{chars_of, decimal, push_decimal, push_str, string_of};
use vstd::prelude::*;

verus! {

/// What to do with a paint.
pub enum PaintAction {
    /// Nothing: capture is over, or the frame's virtual time is not spent.
    Ignore,
    /// The paint does not carry the requested stamp: ask for another one.
    Invalidate,
    /// Too many paints without the stamp: capture is aborted.
    Stalled { frame: u32, ms: u32 },
    /// The paint is frame `index`: send it to the encoder.
    Frame { index: u32, last: bool },
}

/// What to do after a captured frame went (or failed to go) to the
/// encoder.
pub enum FrameOutcome {
    /// The encoder is gone: capture is aborted.
    Abort,
    /// That was the last frame: capture is complete.
    Finished,
    /// Capture the next frame.
    Next,
}

/// Judges a paint whose stego row reads `stamp` (`None` when unreadable).
pub fn on_paint(state: &mut State, stamp: Option<u32>) -> (r: PaintAction)
    requires
        old(state).wf(),
    ensures
        final(state).wf(),
        r is Frame ==> old(state).budget_done && stamp == Some(old(state).requested_ms),
        (old(state).done || !old(state).budget_done) ==> r is Ignore && *final(state) == *old(state),
        (!old(state).done && old(state).budget_done && stamp == Some(old(state).requested_ms)) ==> (
        r == PaintAction::Frame {
            index: old(state).next_frame,
            last: old(state).next_frame + 1 >= old(state).total_frames,
        }) && *final(state) == *old(state),
        (!old(state).done && old(state).budget_done && stamp != Some(old(state).requested_ms)) ==> {
            let stuck = old(state).stuck_invalidates + 1;
            if stuck > MAX_INVALIDATES {
                r == (PaintAction::Stalled { frame: old(state).next_frame, ms: old(state).requested_ms })
                    && *final(state) == (State {
                    stuck_invalidates: stuck as u32,
                    done: true,
                    ..*old(state)
                })
            } else {
                r is Invalidate && *final(state) == (State {
                    stuck_invalidates: stuck as u32,
                    ..*old(state)
                })
            }
        },
{
    if state.done {
        return PaintAction::Ignore;
    }
    if !state.budget_done {
        return PaintAction::Ignore;
    }
    let matches = match stamp {
        Some(ts) => ts == state.requested_ms,
        None => false,
    };
    if !matches {
        state.stuck_invalidates = state.stuck_invalidates + 1;
        if state.stuck_invalidates > MAX_INVALIDATES {
            state.done = true;
            return PaintAction::Stalled { frame: state.next_frame, ms: state.requested_ms };
        }
        return PaintAction::Invalidate;
    }
    let n = state.next_frame;
    let last = n as u64 + 1 >= state.total_frames as u64;
    PaintAction::Frame { index: n, last }
}

/// Records the fate of the frame that `on_paint` handed out: `sent` tells
/// whether the encoder took it.
pub fn frame_sent(state: &mut State, sent: bool) -> (r: FrameOutcome)
    requires
        old(state).wf(),
        !old(state).done,
    ensures
        final(state).wf(),
        !sent ==> r is Abort && *final(state) == (State { done: true, ..*old(state) }),
        sent && old(state).next_frame + 1 >= old(state).total_frames ==> r is Finished && *final(state)
            == (State { done: true, ..*old(state) }),
        sent && old(state).next_frame + 1 < old(state).total_frames ==> r is Next && *final(state) == (
        State { next_frame: (old(state).next_frame + 1) as u32, ..*old(state) }),
{
    if !sent {
        state.done = true;
        return FrameOutcome::Abort;
    }
    if state.next_frame as u64 + 1 >= state.total_frames as u64 {
        state.done = true;
        FrameOutcome::Finished
    } else {
        state.next_frame = state.next_frame + 1;
        FrameOutcome::Next
    }
}

/// The error reported when the compositor never paints the stamp.
pub open spec fn stall_message_spec(frame: u32, ms: u32) -> Seq<char> {
    "compositor stalled at frame "@ + decimal(frame as nat) + " ms="@ + decimal(ms as nat)
        + " \u{2014} aborting"@
}

/// The error reported when the compositor never paints the stamp.
pub fn stall_message(frame: u32, ms: u32) -> (r: String)
    ensures
        r@ == stall_message_spec(frame, ms),
{
    let mut out = chars_of("compositor stalled at frame ");
    push_decimal(&mut out, frame as u128);
    push_str(&mut out, " ms=");
    push_decimal(&mut out, ms as u128);
    push_str(&mut out, " \u{2014} aborting");
    string_of(&out)
}

} // verus!
