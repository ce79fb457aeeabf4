//! Decoding sessions of `<video>` sources: their ids and frame files.
use crate::text::{decimal, hex_fixed, push_decimal, push_hex_fixed, push_str, string_of};
use std::collections::hash_map::DefaultHasher;
use std::hash::{Hash, Hasher};
use vstd::prelude::*;

verus! {

/// Calls `<str as Hash>::hash` on a `DefaultHasher`. What it feeds the
/// hasher is not stated: the documentation does not spell it out.
#[verifier::external_body]
fn hash_str(s: &str, h: &mut DefaultHasher) {
    s.hash(h)
}

/// Calls `<u32 as Hash>::hash` on a `DefaultHasher`. What it feeds the
/// hasher is not stated: the bytes follow the machine's byte order, and the
/// documentation does not spell them out.
#[verifier::external_body]
fn hash_u32(v: u32, h: &mut DefaultHasher) {
    v.hash(h)
}

/// The id of the session decoding `src` at `fps`: the default hash of the
/// two (`src`, then `fps`), as 16 lowercase hex digits.
pub fn id_for(src: &str, fps: u32) -> (r: String)
    ensures
        exists|x: u64| r@ == #[trigger] hex_fixed(x as nat, 16),
        r@.len() == 16,
{
    let mut h = DefaultHasher::new();
    hash_str(src, &mut h);
    hash_u32(fps, &mut h);
    let v = h.finish();
    let mut out: Vec<char> = Vec::new();
    push_hex_fixed(&mut out, v, 16);
    proof {
        lemma_hex_fixed_len(v as nat, 16);
    }
    string_of(&out)
}

proof fn lemma_hex_fixed_len(n: nat, w: nat)
    ensures
        hex_fixed(n, w).len() == w,
    decreases w,
{
    if w > 0 {
        lemma_hex_fixed_len(n / 16, (w - 1) as nat);
    }
}

/// `digits` padded with leading zeros to at least `width` characters.
pub open spec fn zero_pad(digits: Seq<char>, width: nat) -> Seq<char> {
    if digits.len() < width {
        Seq::new((width - digits.len()) as nat, |i: int| '0') + digits
    } else {
        digits
    }
}

/// The file ffmpeg writes frame `idx` (1-based) to: six-digit zero-padded
/// number, `.png`.
pub fn frame_file_name(idx: u32) -> (r: String)
    ensures
        r@ == zero_pad(decimal(idx as nat), 6) + ".png"@,
{
    let mut digits: Vec<char> = Vec::new();
    push_decimal(&mut digits, idx as u128);
    let mut out: Vec<char> = Vec::new();
    let mut k: usize = digits.len();
    while k < 6
        invariant
            digits.len() <= k <= 6 || (k == digits.len() && k >= 6),
            out@ == Seq::new((k - digits@.len()) as nat, |i: int| '0'),
        decreases 6 - k,
    {
        out.push('0');
        k = k + 1;
        assert(out@ =~= Seq::new((k - digits@.len()) as nat, |i: int| '0'));
    }
    crate::text::push_all(&mut out, &digits);
    push_str(&mut out, ".png");
    proof {
        if digits@.len() >= 6 {
            assert(out@ =~= digits@ + ".png"@);
        }
    }
    string_of(&out)
}

/// What a waiter for frame `idx` of a session does next.
pub enum WaitStep {
    /// The frame's file was read: hand it out.
    Deliver,
    /// The decoder reports the frame written: read its file again.
    Retry,
    /// Decoding ended, or the deadline passed, without the frame.
    GiveUp,
    /// Sleep until the decoder reports progress or the deadline passes.
    Wait,
}

/// Decides the next step of waiting for frame `idx`: `file_read` tells
/// whether its file could be read, `written` how many frames the decoder
/// reports written, `decoding_done` whether the decoder exited,
/// `past_deadline` whether the wait timed out.
pub fn wait_frame_step(file_read: bool, written: u32, idx: u32, decoding_done: bool, past_deadline: bool) -> (r: WaitStep)
    ensures
        file_read ==> r is Deliver,
        !file_read && written >= idx ==> r is Retry,
        !file_read && written < idx && decoding_done ==> r is GiveUp,
        !file_read && written < idx && !decoding_done && past_deadline ==> r is GiveUp,
        !file_read && written < idx && !decoding_done && !past_deadline ==> r is Wait,
{
    if file_read {
        WaitStep::Deliver
    } else if written >= idx {
        WaitStep::Retry
    } else if decoding_done || past_deadline {
        WaitStep::GiveUp
    } else {
        WaitStep::Wait
    }
}

} // verus!
