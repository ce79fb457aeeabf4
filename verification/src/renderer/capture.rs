//! The per-frame capture loop: each frame asks the page to draw virtual
//! time `ms` (stamped into the stego row), lets virtual time advance by one
//! frame's budget, and waits for a paint that carries the stamp.
use crate::cef::cdp::{cdp_message, Cdp};
use crate::text::{chars_of, decimal, push_decimal, push_str, string_of};
use vstd::prelude::*;

verus! {

/// After this many paints without the requested stamp the frame is
/// abandoned.
pub const MAX_INVALIDATES: u32 = 60;

/// Wall-clock guard per frame, in milliseconds.
pub const FRAME_TIMEOUT_MS: i64 = 5000;

/// The capture state of one render process.
pub struct State {
    /// Index of the frame being captured.
    pub next_frame: u32,
    /// Virtual time (ms) requested for that frame.
    pub requested_ms: u32,
    /// The browser reported that the frame's virtual-time budget ran out.
    pub budget_done: bool,
    /// Paints since the request that did not carry the requested stamp.
    pub stuck_invalidates: u32,
    /// Capture is over (finished or aborted).
    pub done: bool,
    /// The warmup reload was issued.
    pub reload_fired: bool,
    pub width: i32,
    pub height: i32,
    pub total_frames: u32,
}

impl State {
    /// The capture invariant: while capture runs, at most
    /// `MAX_INVALIDATES` mismatching paints have been seen for the current
    /// frame, and the current frame is one of the frames to capture.
    pub open spec fn wf(&self) -> bool {
        &&& !self.done ==> self.stuck_invalidates <= MAX_INVALIDATES
        &&& self.next_frame < self.total_frames || self.next_frame == 0
    }

    /// A fresh state for a `width` x `height` capture of `total_frames`
    /// frames.
    pub fn new(width: i32, height: i32, total_frames: u32) -> (s: State)
        ensures
            s.wf(),
            s.next_frame == 0,
            s.requested_ms == 0,
            !s.budget_done,
            s.stuck_invalidates == 0,
            !s.done,
            !s.reload_fired,
            s.width == width,
            s.height == height,
            s.total_frames == total_frames,
    {
        State {
            next_frame: 0,
            requested_ms: 0,
            budget_done: false,
            stuck_invalidates: 0,
            done: false,
            reload_fired: false,
            width,
            height,
            total_frames,
        }
    }

    /// Starts capturing the current frame at virtual time `ms`. Returns the
    /// frame's index (for its watchdog), or `None` when capture is over.
    pub fn step(&mut self, ms: u32) -> (r: Option<u32>)
        requires
            old(self).wf(),
        ensures
            final(self).wf(),
            old(self).done ==> r is None && *final(self) == *old(self),
            !old(self).done ==> r == Some(old(self).next_frame) && *final(self) == (State {
                requested_ms: ms,
                budget_done: false,
                stuck_invalidates: 0,
                ..*old(self)
            }),
    {
        if self.done {
            return None;
        }
        self.requested_ms = ms;
        self.budget_done = false;
        self.stuck_invalidates = 0;
        Some(self.next_frame)
    }

    /// The browser reports that the virtual-time budget of the frame ran
    /// out: paints may now be captured.
    pub fn budget_expired(&mut self)
        requires
            old(self).wf(),
        ensures
            final(self).wf(),
            *final(self) == (State { budget_done: true, ..*old(self) }),
    {
        self.budget_done = true;
    }

    /// The watchdog of frame `frame` fires. When capture is still on that
    /// frame, capture is aborted and the frame and requested time are
    /// returned for the report.
    pub fn watchdog_fired(&mut self, frame: u32) -> (r: Option<(u32, u32)>)
        requires
            old(self).wf(),
        ensures
            final(self).wf(),
            (old(self).done || old(self).next_frame > frame) ==> r is None && *final(self) == *old(self),
            !(old(self).done || old(self).next_frame > frame) ==> r == Some((frame, old(self).requested_ms))
                && *final(self) == (State { done: true, ..*old(self) }),
    {
        if self.done || self.next_frame > frame {
            return None;
        }
        self.done = true;
        Some((frame, self.requested_ms))
    }

    /// The view rectangle (x, y, width, height) the browser renders into:
    /// the page plus one stego row below it.
    pub fn view_rect(&self) -> (r: (i32, i32, i32, i32))
        requires
            self.height < i32::MAX,
        ensures
            r == (0i32, 0i32, self.width, (self.height + 1) as i32),
    {
        (0, 0, self.width, self.height + 1)
    }
}

/// The error reported when a frame's watchdog fires.
pub open spec fn frame_timeout_message_spec(frame: u32, ms: u32) -> Seq<char> {
    "frame "@ + decimal(frame as nat) + " timeout: no paint in 5000ms (ms="@ + decimal(ms as nat) + ")"@
}

/// The error reported when a frame's watchdog fires.
pub fn frame_timeout_message(frame: u32, ms: u32) -> (r: String)
    ensures
        r@ == frame_timeout_message_spec(frame, ms),
{
    let mut out = chars_of("frame ");
    push_decimal(&mut out, frame as u128);
    push_str(&mut out, " timeout: no paint in 5000ms (ms=");
    push_decimal(&mut out, ms as u128);
    push_str(&mut out, ")");
    string_of(&out)
}

/// Pauses the page's virtual time; returns the DevTools call to send.
pub fn pause_virtual_time<H>(cdp: &mut Cdp<H>) -> (msg: String)
    ensures
        msg@ == cdp_message(
            old(cdp).next_id(),
            "Emulation.setVirtualTimePolicy"@,
            "{\"policy\":\"pause\"}"@,
        ),
        final(cdp).next_id() == crate::cef::cdp::following_id(old(cdp).next_id()),
        final(cdp).entries() == old(cdp).entries(),
{
    cdp.send("Emulation.setVirtualTimePolicy", "{\"policy\":\"pause\"}")
}

/// The parameters that let virtual time advance by `budget_ms`.
pub open spec fn advance_params(budget_ms: u32) -> Seq<char> {
    "{\"policy\":\"advance\",\"budget\":"@ + decimal(budget_ms as nat)
        + ",\"maxVirtualTimeTaskStarvationCount\":1}"@
}

/// Lets virtual time advance by `budget_ms`; returns the DevTools call.
pub fn advance_virtual_time<H>(cdp: &mut Cdp<H>, budget_ms: u32) -> (msg: String)
    ensures
        msg@ == cdp_message(old(cdp).next_id(), "Emulation.setVirtualTimePolicy"@, advance_params(budget_ms)),
        final(cdp).next_id() == crate::cef::cdp::following_id(old(cdp).next_id()),
        final(cdp).entries() == old(cdp).entries(),
{
    let mut p = chars_of("{\"policy\":\"advance\",\"budget\":");
    push_decimal(&mut p, budget_ms as u128);
    push_str(&mut p, ",\"maxVirtualTimeTaskStarvationCount\":1}");
    let params = string_of(&p);
    cdp.send("Emulation.setVirtualTimePolicy", params.as_str())
}

/// The parameters that make the host page stamp virtual time `ms`.
pub open spec fn stego_params(ms: u32) -> Seq<char> {
    "{\"expression\":\"window.__havi_step("@ + decimal(ms as nat) + ")\",\"returnByValue\":true}"@
}

/// Makes the host page stamp `ms` into the stego row; returns the DevTools
/// call.
pub fn draw_stego<H>(cdp: &mut Cdp<H>, ms: u32) -> (msg: String)
    ensures
        msg@ == cdp_message(old(cdp).next_id(), "Runtime.evaluate"@, stego_params(ms)),
        final(cdp).next_id() == crate::cef::cdp::following_id(old(cdp).next_id()),
        final(cdp).entries() == old(cdp).entries(),
{
    let mut p = chars_of("{\"expression\":\"window.__havi_step(");
    push_decimal(&mut p, ms as u128);
    push_str(&mut p, ")\",\"returnByValue\":true}");
    let params = string_of(&p);
    cdp.send("Runtime.evaluate", params.as_str())
}

/// The script that moves the user frame's clock hooks to `ms`.
pub open spec fn tick_script(ms: u32) -> Seq<char> {
    "(function(){if(window.__havi_tick)window.__havi_tick.process("@ + decimal(ms as nat)
        + ");if(window.__havi_advance_videos)window.__havi_advance_videos("@ + decimal(ms as nat)
        + ");})()"@
}

/// The script to run in the user's frame so that its timers and videos
/// reach virtual time `ms`.
pub fn tick_iframe(ms: u32) -> (code: String)
    ensures
        code@ == tick_script(ms),
{
    let mut p = chars_of("(function(){if(window.__havi_tick)window.__havi_tick.process(");
    push_decimal(&mut p, ms as u128);
    push_str(&mut p, ");if(window.__havi_advance_videos)window.__havi_advance_videos(");
    push_decimal(&mut p, ms as u128);
    push_str(&mut p, ");})()");
    string_of(&p)
}

} // verus!
