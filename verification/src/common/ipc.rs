//! Messages a render process reports to its parent (one JSON object per
//! stdout line when IPC is on), and the command/event vocabulary of a
//! multi-render host.
use crate::api::RenderOpts;
use crate::text::{chars_of, push_str, string_of};
use vstd::prelude::*;

verus! {

/// Severity of a console line.
pub enum Level {
    Info,
    Warn,
    Error,
}

/// What a render process reports.
pub enum Msg {
    Progress { frame: u32, total: u32 },
    Console { level: Level, source: String, message: String },
    Done { frames: u32, width: i32, height: i32, fps: u32, out: String, elapsed_ms: u64 },
    Error { message: String },
}

/// Identifier of a render within a host.
pub type RenderId = u64;

/// A command to a host.
pub enum Cmd {
    Start { id: RenderId, opts: RenderOpts },
    Cancel { id: RenderId },
    Shutdown,
}

/// An event a host reports.
pub enum Evt {
    HostReady,
    Started { id: RenderId },
    Progress { id: RenderId, frame: u32, total: u32 },
    Console { id: RenderId, level: Level, source: String, message: String },
    Done { id: RenderId, out: String, frames: u32, elapsed_ms: u64 },
    Error { id: RenderId, message: String },
    HostExit,
}

/// Where a report goes: a message on the IPC channel, or a human-readable
/// line on the log.
pub enum Output {
    Emit(Msg),
    Log(String),
}

/// The lowercase name of a level.
pub open spec fn level_name_spec(level: Level) -> Seq<char> {
    match level {
        Level::Info => "info"@,
        Level::Warn => "warn"@,
        Level::Error => "error"@,
    }
}

/// The lowercase name of a level (`info`, `warn`, `error`).
pub fn level_name(level: &Level) -> (r: String)
    ensures
        r@ == level_name_spec(*level),
{
    match level {
        Level::Info => string_of(&chars_of("info")),
        Level::Warn => string_of(&chars_of("warn")),
        Level::Error => string_of(&chars_of("error")),
    }
}

/// Reports an error: as an `Error` message when IPC is on, else as the log
/// line `error: <message>`.
pub fn error(ipc: bool, message: &str) -> (r: Output)
    ensures
        ipc ==> (r matches Output::Emit(Msg::Error { message: m }) && m@ == message@),
        !ipc ==> (r matches Output::Log(line) && line@ == "error: "@ + message@),
{
    if ipc {
        Output::Emit(Msg::Error { message: string_of(&chars_of(message)) })
    } else {
        let mut line = chars_of("error: ");
        push_str(&mut line, message);
        Output::Log(string_of(&line))
    }
}

/// Reports a console line of the page: as a `Console` message when IPC is
/// on, else as the log line `<level>: <message>` (the source is dropped).
pub fn console(ipc: bool, level: Level, source: &str, message: &str) -> (r: Output)
    ensures
        ipc ==> (r matches Output::Emit(Msg::Console { level: l, source: s, message: m }) && l
            == level && s@ == source@ && m@ == message@),
        !ipc ==> (r matches Output::Log(line) && line@ == level_name_spec(level) + ": "@ + message@),
{
    if ipc {
        Output::Emit(
            Msg::Console {
                level,
                source: string_of(&chars_of(source)),
                message: string_of(&chars_of(message)),
            },
        )
    } else {
        let name = level_name(&level);
        let mut line = chars_of(name.as_str());
        push_str(&mut line, ": ");
        push_str(&mut line, message);
        Output::Log(string_of(&line))
    }
}

} // verus!
