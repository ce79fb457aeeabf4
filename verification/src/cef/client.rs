//! Forwarding of the page's console to the render's report.
use crate::common::ipc::Level;
use crate::text::{chars_of, push_signed_decimal, push_str, signed_decimal, string_of};
use vstd::prelude::*;

verus! {

/// Chromium's raw log severity of warnings.
pub const SEVERITY_WARNING: i64 = 3;
/// Chromium's raw log severity of errors.
pub const SEVERITY_ERROR: i64 = 4;

/// The level of a console line of raw severity `sev`.
pub open spec fn level_of(sev: i64) -> Level {
    if sev >= SEVERITY_ERROR {
        Level::Error
    } else if sev >= SEVERITY_WARNING {
        Level::Warn
    } else {
        Level::Info
    }
}

/// Maps a raw console severity to a level: errors and above are errors,
/// warnings are warnings, the rest is information.
pub fn map_level(sev: i64) -> (r: Level)
    ensures
        r == level_of(sev),
{
    if sev >= SEVERITY_ERROR {
        Level::Error
    } else if sev >= SEVERITY_WARNING {
        Level::Warn
    } else {
        Level::Info
    }
}

/// Where a console line came from: `source:line`.
pub fn console_location(source: &str, line: i32) -> (r: String)
    ensures
        r@ == source@ + ":"@ + signed_decimal(line as int),
{
    let mut out = chars_of(source);
    push_str(&mut out, ":");
    push_signed_decimal(&mut out, line as i64);
    string_of(&out)
}

} // verus!
