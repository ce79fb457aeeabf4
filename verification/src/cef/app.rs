//! How the deterministic flags are handed to Chromium's command line.
use crate::text::{chars_of, decimal, find_char, first_index_of, push_decimal, replace_all, replace_chars, slice_chars, string_of};
use vstd::prelude::*;

verus! {

/// A command-line switch: a bare name, or a name with a value.
pub struct Switch {
    pub name: String,
    pub value: Option<String>,
}

/// How a flag becomes a switch: `key=value` (split at the first `=`) is a
/// switch with a value, anything else a bare switch.
pub open spec fn switch_of_spec(flag: Seq<char>) -> (Seq<char>, Option<Seq<char>>) {
    match first_index_of(flag, '=') {
        Some(j) => (flag.take(j), Some(flag.skip(j + 1))),
        None => (flag, None),
    }
}

/// The switch a flag is passed as.
pub fn switch_of(flag: &str) -> (r: Switch)
    ensures
        r.name@ == switch_of_spec(flag@).0,
        match switch_of_spec(flag@).1 {
            Some(v) => r.value matches Some(rv) && rv@ == v,
            None => r.value is None,
        },
{
    let f = chars_of(flag);
    match find_char(&f, '=') {
        Some(j) => Switch {
            name: string_of(&slice_chars(&f, 0, j)),
            value: Some(string_of(&slice_chars(&f, j + 1, f.len()))),
        },
        None => Switch { name: string_of(&f), value: None },
    }
}

/// Where the iframe hook script expects the wall-clock origin of the
/// page's `Date` (ms since the epoch).
pub const DATE_ORIGIN_PLACEHOLDER: &'static str = "__HAVI_DATE_ORIGIN__";

/// The iframe hook script with its clock origin set to `now_ms`: every
/// occurrence of the placeholder becomes the decimal numeral of `now_ms`.
pub fn iframe_hook_source(template: &str, now_ms: u128) -> (r: String)
    ensures
        r@ == replace_all(template@, DATE_ORIGIN_PLACEHOLDER@, decimal(now_ms as nat)),
{
    proof {
        reveal_strlit("__HAVI_DATE_ORIGIN__");
    }
    let t = chars_of(template);
    let from = chars_of(DATE_ORIGIN_PLACEHOLDER);
    let mut to: Vec<char> = Vec::new();
    push_decimal(&mut to, now_ms);
    string_of(&replace_chars(&t, &from, &to))
}

} // verus!
