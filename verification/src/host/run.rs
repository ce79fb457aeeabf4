//! Settings of a host process.
use crate::text::{chars_of, parse_usize, parse_usize_spec};
use vstd::prelude::*;

verus! {

/// How many renders run at once when nothing else is set.
pub const DEFAULT_MAX_PARALLEL: usize = 4;

/// The concurrency limit given the `HAVI_MAX_PARALLEL` setting `var`: its
/// value when it parses as a positive number, else 4.
pub fn max_parallel_from(var: Option<&str>) -> (r: usize)
    ensures
        r == match var {
            Some(v) => match parse_usize_spec(v@) {
                Some(n) => if n > 0 {
                    n
                } else {
                    DEFAULT_MAX_PARALLEL
                },
                None => DEFAULT_MAX_PARALLEL,
            },
            None => DEFAULT_MAX_PARALLEL,
        },
        r >= 1,
{
    match var {
        Some(v) => {
            let c = chars_of(v);
            match parse_usize(&c) {
                Some(n) => {
                    if n > 0 {
                        n
                    } else {
                        DEFAULT_MAX_PARALLEL
                    }
                },
                None => DEFAULT_MAX_PARALLEL,
            }
        },
        None => DEFAULT_MAX_PARALLEL,
    }
}

} // verus!
