//! The command line of the `havi` program.
use crate::text::{chars_of, split_char, split_on, string_of, trim, trim_chars};
use vstd::prelude::*;

verus! {

/// The arguments of one render from the command line.
pub struct Cli {
    /// `file://`, `http(s)://`, `data:` URI, or filesystem path.
    pub source: String,
    pub width: i32,
    pub height: i32,
    pub fps: u32,
    /// Duration in seconds.
    pub duration: u32,
    /// Comma-separated output paths.
    pub out: String,
    /// On load timeout, proceed with partial DOM instead of failing.
    pub tolerant: bool,
    /// Proxy rules as a JSON array.
    pub proxy: Option<String>,
}

/// The non-empty trimmed pieces of a comma-separated list, in order.
pub open spec fn output_list(pieces: Seq<Seq<char>>) -> Seq<Seq<char>>
    decreases pieces.len(),
{
    if pieces.len() == 0 {
        Seq::empty()
    } else {
        let before = output_list(pieces.drop_last());
        let t = trim(pieces.last());
        if t.len() == 0 {
            before
        } else {
            before.push(t)
        }
    }
}

impl Cli {
    /// The output paths: the comma-separated pieces of `out`, trimmed, empty
    /// ones dropped.
    pub fn outputs(&self) -> (r: Vec<String>)
        ensures
            r@.map_values(|s: String| s@) == output_list(split_on(self.out@, ',')),
    {
        let o = chars_of(self.out.as_str());
        let pieces = split_char(&o, ',');
        let ghost ps = split_on(self.out@, ',');
        let mut r: Vec<String> = Vec::new();
        let mut i: usize = 0;
        while i < pieces.len()
            invariant
                i <= pieces@.len(),
                pieces@.len() == ps.len(),
                forall|k: int| 0 <= k < pieces@.len() ==> #[trigger] pieces@[k]@ == ps[k],
                r@.map_values(|s: String| s@) == output_list(ps.take(i as int)),
            decreases pieces.len() - i,
        {
            let t = trim_chars(&pieces[i]);
            proof {
                assert(ps.take(i + 1).drop_last() == ps.take(i as int));
                assert(ps.take(i + 1).last() == pieces@[i as int]@);
            }
            if t.len() > 0 {
                let ghost before = r@;
                r.push(string_of(&t));
                assert(r@.map_values(|s: String| s@) =~= before.map_values(|s: String| s@).push(t@));
            }
            i = i + 1;
        }
        assert(ps.take(pieces@.len() as int) == ps);
        r
    }

    /// The number of frames to capture: `fps` times `duration`.
    pub fn total_frames(&self) -> (r: u32)
        requires
            self.fps * self.duration <= u32::MAX,
        ensures
            r == self.fps * self.duration,
    {
        self.fps * self.duration
    }
}

} // verus!
