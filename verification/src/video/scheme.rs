//! The `havi-frame://` scheme through which the host page drives video
//! decoding: `open`, `frame`, `close` and `dom-ready`.
use crate::cef::resource::{make_handler, SyntheticResource};
use crate::text::{chars_of, parse_u32, parse_u32_spec};
use crate::video::scheme_url::Query;
use vstd::prelude::*;

verus! {

/// The scheme's name.
pub const SCHEME: &'static str = "havi-frame";

/// What a `havi-frame://` request asks for.
pub enum Route {
    /// Open (or reuse) a decoding session of `src` at `fps`.
    Open { src: String, fps: u32 },
    /// Frame `idx` (1-based) of session `id`.
    Frame { id: String, idx: u32 },
    /// Close session `id`.
    Close { id: String },
    /// The user's page reached DOM-ready.
    DomReady,
    /// Anything else.
    NotFound,
}

/// Parameter `key` of `q` parsed as a `u32`, else `default`.
pub open spec fn number_param(q: Query, key: Seq<char>, default: u32) -> u32 {
    if q.param_map().contains_key(key) {
        match parse_u32_spec(q.param_map()[key]) {
            Some(v) => v,
            None => default,
        }
    } else {
        default
    }
}

/// Parameter `key` of `q`, else empty.
pub open spec fn text_param(q: Query, key: Seq<char>) -> Seq<char> {
    if q.param_map().contains_key(key) {
        q.param_map()[key]
    } else {
        Seq::empty()
    }
}

fn text_param_exec(q: &Query, key: &str) -> (r: String)
    ensures
        r@ == text_param(*q, key@),
{
    match q.get(key) {
        Some(v) => v,
        None => String::new(),
    }
}

fn number_param_exec(q: &Query, key: &str, default: u32) -> (r: u32)
    ensures
        r == number_param(*q, key@, default),
{
    match q.get(key) {
        Some(v) => {
            let c = chars_of(v.as_str());
            match parse_u32(&c) {
                Some(n) => n,
                None => default,
            }
        },
        None => default,
    }
}

/// What the request `q` asks for: by its path, with `src` (default empty)
/// and `fps` (default 30) for `open`, `id` and `idx` (default 1) for
/// `frame`, `id` for `close`.
pub fn route(q: &Query) -> (r: Route)
    ensures
        q.path@ == "open"@ ==> (r matches Route::Open { src, fps } && src@ == text_param(*q, "src"@)
            && fps == number_param(*q, "fps"@, 30)),
        q.path@ == "frame"@ ==> (r matches Route::Frame { id, idx } && id@ == text_param(*q, "id"@)
            && idx == number_param(*q, "idx"@, 1)),
        q.path@ == "close"@ ==> (r matches Route::Close { id } && id@ == text_param(*q, "id"@)),
        q.path@ == "dom-ready"@ ==> r is DomReady,
        q.path@ != "open"@ && q.path@ != "frame"@ && q.path@ != "close"@ && q.path@ != "dom-ready"@
            ==> r is NotFound,
{
    proof {
        reveal_strlit("open");
        reveal_strlit("frame");
        reveal_strlit("close");
        reveal_strlit("dom-ready");
        assert("frame"@.len() != "open"@.len());
        assert("close"@.len() != "open"@.len());
        assert("dom-ready"@.len() != "open"@.len());
        assert("close"@[0] != "frame"@[0]);
        assert("dom-ready"@.len() != "frame"@.len());
        assert("dom-ready"@.len() != "close"@.len());
    }
    let p = chars_of(q.path.as_str());
    if crate::text::chars_eq(&p, &chars_of("open")) {
        Route::Open { src: text_param_exec(q, "src"), fps: number_param_exec(q, "fps", 30) }
    } else if crate::text::chars_eq(&p, &chars_of("frame")) {
        Route::Frame { id: text_param_exec(q, "id"), idx: number_param_exec(q, "idx", 1) }
    } else if crate::text::chars_eq(&p, &chars_of("close")) {
        Route::Close { id: text_param_exec(q, "id") }
    } else if crate::text::chars_eq(&p, &chars_of("dom-ready")) {
        Route::DomReady
    } else {
        Route::NotFound
    }
}

/// An empty reply with `status`.
pub fn empty_reply(mime: &str, status: u16) -> (r: SyntheticResource)
    ensures
        r.bytes@.len() == 0,
        r.mime@ == mime@,
        r.status == status,
        r.headers@.len() == 0,
        r.pos == 0,
{
    make_handler(Vec::new(), mime, status)
}

/// The reply to `open`: the session's JSON description, or 404 when the
/// source could not be opened.
pub fn open_reply(json: Option<String>) -> (r: SyntheticResource)
    ensures
        r.mime@ == "application/json"@,
        r.headers@.len() == 0,
        r.pos == 0,
        match json {
            Some(j) => r.status == 200 && r.bytes@ == vstd::utf8::encode_utf8(j@),
            None => r.status == 404 && r.bytes@.len() == 0,
        },
{
    match json {
        Some(j) => make_handler(crate::text::bytes_of(j.as_str()), "application/json", 200),
        None => make_handler(Vec::new(), "application/json", 404),
    }
}

/// The reply to `frame`: 404 for an unknown session, the PNG when it came
/// in time, 410 when it did not.
pub fn frame_reply(session_found: bool, png: Option<Vec<u8>>) -> (r: SyntheticResource)
    ensures
        r.mime@ == "image/png"@,
        r.headers@.len() == 0,
        r.pos == 0,
        !session_found ==> r.status == 404 && r.bytes@.len() == 0,
        session_found && png is None ==> r.status == 410 && r.bytes@.len() == 0,
        session_found && png is Some ==> r.status == 200 && r.bytes@ == png->0@,
{
    if !session_found {
        return make_handler(Vec::new(), "image/png", 404);
    }
    match png {
        Some(b) => make_handler(b, "image/png", 200),
        None => make_handler(Vec::new(), "image/png", 410),
    }
}

} // verus!
