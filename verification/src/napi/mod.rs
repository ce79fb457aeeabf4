//! What the JavaScript `render()` call makes of the messages of its render
//! process.
use crate::common::ipc::{level_name, level_name_spec, Level, Msg};
use crate::text::{chars_of, string_of};
use vstd::prelude::*;

verus! {

/// What `render()` resolves with.
pub struct RenderResult {
    pub frames: u32,
    pub width: i32,
    pub height: i32,
    pub fps: u32,
    pub out: String,
    pub elapsed_ms: u32,
}

/// Passed to the `onProgress` callback.
pub struct ProgressEvent {
    pub frame: u32,
    pub total: u32,
}

/// Passed to the `onConsole` callback.
pub struct ConsoleEvent {
    pub level: String,
    pub source: String,
    pub message: String,
}

/// What one message from the render process leads to.
pub enum RenderStep {
    /// Call `onProgress` (if given) and keep reading.
    Progress(ProgressEvent),
    /// Call `onConsole` (if given) and keep reading.
    Console(ConsoleEvent),
    /// Resolve the promise.
    Resolve(RenderResult),
    /// Reject the promise with this reason.
    Reject(String),
}

/// `v` clamped into `u32`.
pub open spec fn clamp_u32(v: u64) -> u32 {
    if v <= u32::MAX {
        v as u32
    } else {
        u32::MAX
    }
}

/// Handles the next message of the render process (`None`: the process
/// ended without a `Done`); `aborted` tells whether the caller's signal
/// fired.
pub fn render_step(msg: Option<Msg>, aborted: bool) -> (r: RenderStep)
    ensures
        match msg {
            Some(Msg::Progress { frame, total }) => r matches RenderStep::Progress(e) && e.frame == frame
                && e.total == total,
            Some(Msg::Console { level, source, message }) => r matches RenderStep::Console(e) && e.level@
                == level_name_spec(level) && e.source@ == source@ && e.message@ == message@,
            Some(Msg::Done { frames, width, height, fps, out, elapsed_ms }) => r matches RenderStep::Resolve(
                res,
            ) && res.frames == frames && res.width == width && res.height == height && res.fps == fps
                && res.out@ == out@ && res.elapsed_ms == clamp_u32(elapsed_ms),
            Some(Msg::Error { message }) => r matches RenderStep::Reject(m) && m@ == message@,
            None => r matches RenderStep::Reject(m) && m@ == (if aborted {
                "aborted"@
            } else {
                "render exited without done"@
            }),
        },
{
    match msg {
        Some(Msg::Progress { frame, total }) => RenderStep::Progress(ProgressEvent { frame, total }),
        Some(Msg::Console { level, source, message }) => {
            let name = level_name(&level);
            RenderStep::Console(ConsoleEvent { level: name, source, message })
        },
        Some(Msg::Done { frames, width, height, fps, out, elapsed_ms }) => {
            let ms: u32 = if elapsed_ms <= u32::MAX as u64 {
                elapsed_ms as u32
            } else {
                u32::MAX
            };
            RenderStep::Resolve(RenderResult { frames, width, height, fps, out, elapsed_ms: ms })
        },
        Some(Msg::Error { message }) => RenderStep::Reject(message),
        None => {
            if aborted {
                RenderStep::Reject(string_of(&chars_of("aborted")))
            } else {
                RenderStep::Reject(string_of(&chars_of("render exited without done")))
            }
        },
    }
}

} // verus!
