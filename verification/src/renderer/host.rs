//! The host page that frames the user's page, and the per-frame timestamp
//! ("stego") row that the host page paints below it.
use crate::text::{chars_of, contains, decimal, has_prefix, push_all, push_decimal, push_str, slice_chars, starts_with, string_of};
use vstd::prelude::*;

verus! {

/// Number of stamped pixels (one bit each) in the stego row.
pub const STEGO_BITS: u32 = 32;

/// The bit a stego pixel carries: its red channel above half.
pub open spec fn stego_bit(red: u8) -> nat {
    if red > 127 {
        1
    } else {
        0
    }
}

/// The number spelled, most significant bit first, by the red channels of
/// the first `n` pixels (4 bytes each) starting at byte `start`.
pub open spec fn stego_value(buf: Seq<u8>, start: int, n: nat) -> nat
    decreases n,
{
    if n == 0 {
        0
    } else {
        stego_value(buf, start, (n - 1) as nat) * 2 + stego_bit(buf[start + (n - 1) * 4])
    }
}

/// Byte offset of the last row of a BGRA frame `width` pixels wide and
/// `height` rows high.
pub open spec fn stego_row_start(width: int, height: int) -> int {
    (height - 1) * width * 4
}

/// When `decode_stego` reads a timestamp: the frame is at least
/// `STEGO_BITS` wide and two rows high, and the row offset fits in `usize`.
pub open spec fn stego_readable(width: int, height: int) -> bool {
    width >= STEGO_BITS && height >= 2 && stego_row_start(width, height) <= usize::MAX
}

proof fn lemma_stego_value_bound(buf: Seq<u8>, start: int, n: nat)
    ensures
        stego_value(buf, start, n) < vstd::arithmetic::power2::pow2(n),
    decreases n,
{
    if n > 0 {
        lemma_stego_value_bound(buf, start, (n - 1) as nat);
        vstd::arithmetic::power2::lemma_pow2_unfold(n);
    } else {
        vstd::arithmetic::power2::lemma2_to64();
    }
}

/// The bit of the stamp `ts` that stego pixel `i` carries: pixel 0 holds
/// the most significant of the `STEGO_BITS` bits.
pub open spec fn stamp_bit(ts: nat, i: int) -> nat {
    (ts / vstd::arithmetic::power2::pow2((STEGO_BITS - 1 - i) as nat)) % 2
}

proof fn lemma_stego_prefix(buf: Seq<u8>, start: int, ts: u32, n: nat)
    requires
        n <= STEGO_BITS,
        forall|i: int| 0 <= i < STEGO_BITS ==> #[trigger] stego_bit(buf[start + i * 4]) == stamp_bit(ts as nat, i),
    ensures
        stego_value(buf, start, n) == ts as nat / vstd::arithmetic::power2::pow2((STEGO_BITS - n) as nat),
    decreases n,
{
    vstd::arithmetic::power2::lemma2_to64();
    if n == 0 {
        assert(ts as nat / vstd::arithmetic::power2::pow2(32) == 0) by (nonlinear_arith)
            requires
                ts < 0x1_0000_0000,
                vstd::arithmetic::power2::pow2(32) == 0x1_0000_0000,
        ;
    } else {
        lemma_stego_prefix(buf, start, ts, (n - 1) as nat);
        let p = vstd::arithmetic::power2::pow2((STEGO_BITS - n) as nat);
        vstd::arithmetic::power2::lemma_pow2_pos((STEGO_BITS - n) as nat);
        vstd::arithmetic::power2::lemma_pow2_unfold((STEGO_BITS - n + 1) as nat);
        assert(vstd::arithmetic::power2::pow2((STEGO_BITS - (n - 1)) as nat) == 2 * p);
        let i: int = n - 1;
        assert(stego_bit(buf[start + i * 4]) == stamp_bit(ts as nat, i));
        assert(stamp_bit(ts as nat, i) == (ts as nat / p) % 2);
        vstd::arithmetic::div_mod::lemma_div_denominator(ts as int, p as int, 2);
        vstd::arithmetic::div_mod::lemma_fundamental_div_mod(ts as int / p as int, 2);
        assert(stego_value(buf, start, n) == stego_value(buf, start, (n - 1) as nat) * 2 + stego_bit(
            buf[start + i * 4],
        ));
        assert((ts as nat / p) as int == 2 * ((ts as nat / p) / 2) + (ts as nat / p) % 2);
        assert(ts as nat / (p * 2) == (ts as nat / p) / 2);
        assert(p * 2 == 2 * p);
    }
}

/// A stamped row reads back as its stamp: when the first `STEGO_BITS`
/// pixels from `start` carry the bits of `ts`, most significant first,
/// they spell `ts`.
pub proof fn law_stego_roundtrip(buf: Seq<u8>, start: int, ts: u32)
    requires
        forall|i: int| 0 <= i < STEGO_BITS ==> #[trigger] stego_bit(buf[start + i * 4]) == stamp_bit(ts as nat, i),
    ensures
        stego_value(buf, start, STEGO_BITS as nat) == ts,
{
    lemma_stego_prefix(buf, start, ts, STEGO_BITS as nat);
    vstd::arithmetic::power2::lemma2_to64();
}

/// Reads the 32-bit timestamp stamped into the last row of a BGRA frame.
/// `None` when the frame is too small (or has a negative size) to carry it.
pub fn decode_stego(buf: &[u8], width: i32, height: i32) -> (r: Option<u32>)
    requires
        stego_readable(width as int, height as int) ==> stego_row_start(width as int, height as int)
            + (STEGO_BITS - 1) * 4 < buf@.len(),
    ensures
        match r {
            Some(ts) => stego_readable(width as int, height as int) && ts == stego_value(
                buf@,
                stego_row_start(width as int, height as int),
                STEGO_BITS as nat,
            ),
            None => !stego_readable(width as int, height as int),
        },
{
    if width < 0 || height < 0 {
        return None;
    }
    let w = width as usize;
    let h = height as usize;
    if w < STEGO_BITS as usize || h < 2 {
        return None;
    }
    let stride = match w.checked_mul(4) {
        Some(v) => v,
        None => {
            assert((h - 1) * w * 4 >= w * 4) by (nonlinear_arith)
                requires
                    h >= 2,
                    w >= 0,
            ;
            return None;
        },
    };
    let row_start = match (h - 1).checked_mul(stride) {
        Some(v) => v,
        None => {
            assert((h - 1) * stride == (h - 1) * w * 4) by (nonlinear_arith)
                requires
                    stride == w * 4,
            ;
            return None;
        },
    };
    assert(row_start == stego_row_start(width as int, height as int)) by (nonlinear_arith)
        requires
            row_start == (h - 1) * stride,
            stride == w * 4,
            w == width,
            h == height,
    ;
    let mut ts: u32 = 0;
    let mut i: usize = 0;
    while i < STEGO_BITS as usize
        invariant
            i <= STEGO_BITS,
            row_start + (STEGO_BITS - 1) * 4 < buf@.len(),
            ts == stego_value(buf@, row_start as int, i as nat),
        decreases STEGO_BITS - i,
    {
        assert(i * 4 <= 124);
        let off: usize = i * 4;
        assert(buf@.len() == buf.len());
        assert(row_start + off < buf.len());
        let red = buf[row_start + off];
        let bit: u32 = if red > 127 {
            1
        } else {
            0
        };
        proof {
            lemma_stego_value_bound(buf@, row_start as int, i as nat);
            vstd::arithmetic::power2::lemma_pow2_strictly_increases(i as nat, 32);
            vstd::arithmetic::power2::lemma2_to64();
            assert(ts < 0x8000_0000) by {
                if i < 31 {
                    vstd::arithmetic::power2::lemma_pow2_strictly_increases(i as nat, 31);
                }
            }
            assert(ts < 0x8000_0000 && bit <= 1 ==> ((ts << 1u32) | bit) == ts * 2 + bit)
                by (bit_vector);
        }
        ts = (ts << 1) | bit;
        i = i + 1;
    }
    Some(ts)
}

/// The `file:` URL of a path: `file:///` followed by the path without its
/// leading `/`s.
pub open spec fn file_url_spec(path: Seq<char>) -> Seq<char> {
    "file:///"@ + trim_start_char(path, '/')
}

/// `s` without any leading `c` (as `str::trim_start_matches` with a `char`).
pub open spec fn trim_start_char(s: Seq<char>, c: char) -> Seq<char>
    decreases s.len(),
{
    if s.len() > 0 && s[0] == c {
        trim_start_char(s.drop_first(), c)
    } else {
        s
    }
}

fn trim_start_char_exec(s: &Vec<char>, c: char) -> (r: Vec<char>)
    ensures
        r@ == trim_start_char(s@, c),
{
    let mut i: usize = 0;
    assert(s@.skip(0) == s@);
    while i < s.len() && s[i] == c
        invariant
            i <= s.len(),
            trim_start_char(s@, c) == trim_start_char(s@.skip(i as int), c),
        decreases s.len() - i,
    {
        assert(s@.skip(i as int).drop_first() == s@.skip(i + 1));
        i = i + 1;
    }
    assert(trim_start_char(s@.skip(i as int), c) == s@.skip(i as int));
    slice_chars(s, i, s.len())
}

/// The `file:///...` URL of an absolute filesystem path.
pub fn file_url(path: &str) -> (r: String)
    ensures
        r@ == file_url_spec(path@),
{
    let p = chars_of(path);
    let mut out = chars_of("file:///");
    let t = trim_start_char_exec(&p, '/');
    push_all(&mut out, &t);
    string_of(&out)
}

/// What `normalize_source` makes of a page source: a `file:` URL is
/// rewritten to the `file:///` form, a `data:` URI or any `scheme://` URL is
/// kept, and a filesystem path (`None`) must first be made absolute.
pub open spec fn normalize_source_spec(s: Seq<char>) -> Option<Seq<char>> {
    if has_prefix(s, "file:"@) {
        Some(file_url_spec(s.skip(5)))
    } else if has_prefix(s, "data:"@) || crate::text::contains_seq(s, "://"@) {
        Some(s)
    } else {
        None
    }
}

/// Turns a page source into the URL the host page frames; `None` when the
/// source is a filesystem path, whose absolute form `file_url` then turns
/// into the URL.
pub fn normalize_source(s: &str) -> (r: Option<String>)
    ensures
        match r {
            Some(u) => normalize_source_spec(s@) == Some(u@),
            None => normalize_source_spec(s@) is None,
        },
{
    let cs = chars_of(s);
    let file = chars_of("file:");
    proof {
        reveal_strlit("file:");
    }
    if starts_with(&cs, &file) {
        let rest = slice_chars(&cs, 5, cs.len());
        let mut out = chars_of("file:///");
        let t = trim_start_char_exec(&rest, '/');
        push_all(&mut out, &t);
        return Some(string_of(&out));
    }
    let data = chars_of("data:");
    let sep = chars_of("://");
    if starts_with(&cs, &data) || contains(&cs, &sep) {
        return Some(string_of(&cs));
    }
    None
}

proof fn lemma_trim_start_char(s: Seq<char>, c: char)
    ensures
        !(trim_start_char(s, c).len() > 0 && trim_start_char(s, c)[0] == c),
        trim_start_char(trim_start_char(s, c), c) == trim_start_char(s, c),
        trim_start_char(seq![c] + s, c) == trim_start_char(s, c),
    decreases s.len(),
{
    assert((seq![c] + s).drop_first() =~= s);
    if s.len() > 0 && s[0] == c {
        lemma_trim_start_char(s.drop_first(), c);
    }
}

/// A `file:///` URL made of any path is left as it is by `normalize_source`.
proof fn lemma_file_url_fixed(p: Seq<char>)
    ensures
        normalize_source_spec(file_url_spec(p)) == Some(file_url_spec(p)),
{
    reveal_strlit("file:///");
    reveal_strlit("file:");
    let t = trim_start_char(p, '/');
    let u = file_url_spec(p);
    assert(u =~= seq!['f', 'i', 'l', 'e', ':', '/', '/', '/'] + t);
    assert(has_prefix(u, "file:"@)) by {
        assert(u.subrange(0, 5) =~= "file:"@);
    }
    let rest = u.skip(5);
    assert(rest =~= seq!['/'] + (seq!['/'] + (seq!['/'] + t)));
    lemma_trim_start_char(seq!['/'] + (seq!['/'] + t), '/');
    lemma_trim_start_char(seq!['/'] + t, '/');
    lemma_trim_start_char(t, '/');
    lemma_trim_start_char(p, '/');
    assert(trim_start_char(rest, '/') == t);
}

/// Normalizing a page source twice gives what normalizing it once gives,
/// and so does normalizing the `file:///` URL of a filesystem path. A
/// `file:` source becomes `file:///` followed by a path with no leading
/// `/`.
pub proof fn law_normalize_source_idempotent(s: Seq<char>, path: Seq<char>)
    ensures
        normalize_source_spec(s) matches Some(u) ==> normalize_source_spec(u) == Some(u),
        normalize_source_spec(file_url_spec(path)) == Some(file_url_spec(path)),
        has_prefix(s, "file:"@) ==> (normalize_source_spec(s) matches Some(u) && has_prefix(u, "file:///"@)
            && !(u.len() > 8 && u[8] == '/')),
{
    lemma_file_url_fixed(path);
    if has_prefix(s, "file:"@) {
        lemma_file_url_fixed(s.skip(5));
        reveal_strlit("file:///");
        let t = trim_start_char(s.skip(5), '/');
        lemma_trim_start_char(s.skip(5), '/');
        let u = file_url_spec(s.skip(5));
        assert(u.subrange(0, 8) =~= "file:///"@);
        assert(u.len() > 8 ==> u[8] == t[0]);
    }
}

/// The URL under which the host page written at `abs_path` is loaded.
pub fn host_page_url(abs_path: &str) -> (r: String)
    ensures
        r@ == "file://"@ + abs_path@,
{
    let mut out = chars_of("file://");
    push_str(&mut out, abs_path);
    string_of(&out)
}


/// The host page: the user's page in a `width` x `height` frame, the stego
/// canvas (one row) below it, a heartbeat animation that keeps frames
/// coming, and the host script `shim`.
pub open spec fn host_html(target_url: Seq<char>, width: u32, height: u32, shim: Seq<char>) -> Seq<char> {
    "<!DOCTYPE html>\n<html>\n<head>\n  <meta charset=\"UTF-8\">\n  <style>\n    * { margin: 0; padding: 0; box-sizing: border-box; }\n    html, body { width: "@ + decimal(width as nat) + "px; height: "@ + decimal(height as nat + 1) + "px; overflow: hidden; background: transparent; }\n    #target {\n      position: absolute; top: 0; left: 0;\n      width: "@ + decimal(width as nat) + "px; height: "@ + decimal(height as nat) + "px;\n      border: none; display: block;\n    }\n    #stego {\n      position: absolute; top: "@ + decimal(height as nat) + "px; left: 0;\n      width: "@ + decimal(width as nat) + "px; height: 1px;\n      display: block;\n      image-rendering: pixelated;\n    }\n    @keyframes havi_heartbeat {\n      0% { opacity: 0.5; }\n      100% { opacity: 1; }\n    }\n    #heartbeat {\n      position: absolute; bottom: 0; right: 0;\n      width: 1px; height: 1px;\n      background: #000;\n      animation: havi_heartbeat 1s linear infinite;\n      pointer-events: none;\n    }\n  </style>\n</head>\n<body>\n  <iframe id=\"target\" name=\"havi_target\" src=\""@ + target_url + "\"></iframe>\n  <canvas id=\"stego\" width=\""@ + decimal(width as nat) + "\" height=\"1\"></canvas>\n  <div id=\"heartbeat\"></div>\n  <script>"@ + shim + "</script>\n</body>\n</html>\n"@
}

/// The host page lets transparency through: its `html, body` rule is
/// `width: W px; height: H+1 px; overflow: hidden; background:
/// transparent;` (the page's size plus the stamp row, and no opaque
/// background behind the framed page).
#[verifier::spinoff_prover]
#[verifier::rlimit(60)]
pub proof fn law_host_page_transparent(target_url: Seq<char>, width: u32, height: u32, shim: Seq<char>)
    ensures
        crate::text::contains_seq(
            host_html(target_url, width, height, shim),
            "html, body { width: "@ + decimal(width as nat) + "px; height: "@ + decimal(height as nat + 1)
                + "px; overflow: hidden; background: transparent; }"@,
        ),
{
    reveal_strlit("<!DOCTYPE html>\n<html>\n<head>\n  <meta charset=\"UTF-8\">\n  <style>\n    * { margin: 0; padding: 0; box-sizing: border-box; }\n    html, body { width: ");
    reveal_strlit("<!DOCTYPE html>\n<html>\n<head>\n  <meta charset=\"UTF-8\">\n  <style>\n    * { margin: 0; padding: 0; box-sizing: border-box; }\n    ");
    reveal_strlit("html, body { width: ");
    reveal_strlit("px; overflow: hidden; background: transparent; }\n    #target {\n      position: absolute; top: 0; left: 0;\n      width: ");
    reveal_strlit("px; overflow: hidden; background: transparent; }");
    reveal_strlit("\n    #target {\n      position: absolute; top: 0; left: 0;\n      width: ");
    let a1 = "<!DOCTYPE html>\n<html>\n<head>\n  <meta charset=\"UTF-8\">\n  <style>\n    * { margin: 0; padding: 0; box-sizing: border-box; }\n    "@;
    let a2 = "html, body { width: "@;
    let c1 = "px; overflow: hidden; background: transparent; }"@;
    let c2 = "\n    #target {\n      position: absolute; top: 0; left: 0;\n      width: "@;
    assert("<!DOCTYPE html>\n<html>\n<head>\n  <meta charset=\"UTF-8\">\n  <style>\n    * { margin: 0; padding: 0; box-sizing: border-box; }\n    html, body { width: "@ =~= a1 + a2);
    assert("px; overflow: hidden; background: transparent; }\n    #target {\n      position: absolute; top: 0; left: 0;\n      width: "@ =~= c1 + c2);
    let d1 = decimal(width as nat);
    let d2 = decimal(height as nat + 1);
    let tail = decimal(width as nat) + "px; height: "@ + decimal(height as nat) + "px;\n      border: none; display: block;\n    }\n    #stego {\n      position: absolute; top: "@ + decimal(height as nat) + "px; left: 0;\n      width: "@ + decimal(width as nat) + "px; height: 1px;\n      display: block;\n      image-rendering: pixelated;\n    }\n    @keyframes havi_heartbeat {\n      0% { opacity: 0.5; }\n      100% { opacity: 1; }\n    }\n    #heartbeat {\n      position: absolute; bottom: 0; right: 0;\n      width: 1px; height: 1px;\n      background: #000;\n      animation: havi_heartbeat 1s linear infinite;\n      pointer-events: none;\n    }\n  </style>\n</head>\n<body>\n  <iframe id=\"target\" name=\"havi_target\" src=\""@ + target_url + "\"></iframe>\n  <canvas id=\"stego\" width=\""@ + decimal(width as nat) + "\" height=\"1\"></canvas>\n  <div id=\"heartbeat\"></div>\n  <script>"@ + shim + "</script>\n</body>\n</html>\n"@;
    let post = c2 + tail;
    let rule = a2 + d1 + "px; height: "@ + d2 + c1;
    let html = host_html(target_url, width, height, shim);
    assert(html =~= a1 + rule + post);
    assert(html.subrange(a1.len() as int, (a1.len() + rule.len()) as int) =~= rule);
    assert(crate::text::occurs_at(html, rule, a1.len() as int));
}

/// The host page frames the user's page: it holds the frame element
/// `<iframe id="target" name="havi_target" src="URL"></iframe>` with the
/// target URL exactly as given.
#[verifier::spinoff_prover]
#[verifier::rlimit(60)]
pub proof fn law_host_page_frames_target(target_url: Seq<char>, width: u32, height: u32, shim: Seq<char>)
    ensures
        crate::text::contains_seq(
            host_html(target_url, width, height, shim),
            "<iframe id=\"target\" name=\"havi_target\" src=\""@ + target_url + "\"></iframe>"@,
        ),
{
    reveal_strlit("px; height: 1px;\n      display: block;\n      image-rendering: pixelated;\n    }\n    @keyframes havi_heartbeat {\n      0% { opacity: 0.5; }\n      100% { opacity: 1; }\n    }\n    #heartbeat {\n      position: absolute; bottom: 0; right: 0;\n      width: 1px; height: 1px;\n      background: #000;\n      animation: havi_heartbeat 1s linear infinite;\n      pointer-events: none;\n    }\n  </style>\n</head>\n<body>\n  <iframe id=\"target\" name=\"havi_target\" src=\"");
    reveal_strlit("px; height: 1px;\n      display: block;\n      image-rendering: pixelated;\n    }\n    @keyframes havi_heartbeat {\n      0% { opacity: 0.5; }\n      100% { opacity: 1; }\n    }\n    #heartbeat {\n      position: absolute; bottom: 0; right: 0;\n      width: 1px; height: 1px;\n      background: #000;\n      animation: havi_heartbeat 1s linear infinite;\n      pointer-events: none;\n    }\n  </style>\n</head>\n<body>\n  ");
    reveal_strlit("<iframe id=\"target\" name=\"havi_target\" src=\"");
    reveal_strlit("\"></iframe>\n  <canvas id=\"stego\" width=\"");
    reveal_strlit("\"></iframe>");
    reveal_strlit("\n  <canvas id=\"stego\" width=\"");
    let f = "<iframe id=\"target\" name=\"havi_target\" src=\""@;
    let g = "\"></iframe>"@;
    let l6a = "px; height: 1px;\n      display: block;\n      image-rendering: pixelated;\n    }\n    @keyframes havi_heartbeat {\n      0% { opacity: 0.5; }\n      100% { opacity: 1; }\n    }\n    #heartbeat {\n      position: absolute; bottom: 0; right: 0;\n      width: 1px; height: 1px;\n      background: #000;\n      animation: havi_heartbeat 1s linear infinite;\n      pointer-events: none;\n    }\n  </style>\n</head>\n<body>\n  "@;
    let l7b = "\n  <canvas id=\"stego\" width=\""@;
    assert("px; height: 1px;\n      display: block;\n      image-rendering: pixelated;\n    }\n    @keyframes havi_heartbeat {\n      0% { opacity: 0.5; }\n      100% { opacity: 1; }\n    }\n    #heartbeat {\n      position: absolute; bottom: 0; right: 0;\n      width: 1px; height: 1px;\n      background: #000;\n      animation: havi_heartbeat 1s linear infinite;\n      pointer-events: none;\n    }\n  </style>\n</head>\n<body>\n  <iframe id=\"target\" name=\"havi_target\" src=\""@ =~= l6a + f);
    assert("\"></iframe>\n  <canvas id=\"stego\" width=\""@ =~= g + l7b);
    let html = host_html(target_url, width, height, shim);
    let front = "<!DOCTYPE html>\n<html>\n<head>\n  <meta charset=\"UTF-8\">\n  <style>\n    * { margin: 0; padding: 0; box-sizing: border-box; }\n    html, body { width: "@ + decimal(width as nat) + "px; height: "@ + decimal(height as nat + 1) + "px; overflow: hidden; background: transparent; }\n    #target {\n      position: absolute; top: 0; left: 0;\n      width: "@ + decimal(width as nat) + "px; height: "@ + decimal(height as nat) + "px;\n      border: none; display: block;\n    }\n    #stego {\n      position: absolute; top: "@ + decimal(height as nat) + "px; left: 0;\n      width: "@ + decimal(width as nat);
    let back = decimal(width as nat) + "\" height=\"1\"></canvas>\n  <div id=\"heartbeat\"></div>\n  <script>"@ + shim + "</script>\n</body>\n</html>\n"@;
    let frame = f + target_url + g;
    assert(html =~= (front + l6a) + frame + (l7b + back));
    let at = (front + l6a).len() as int;
    assert(html.subrange(at, at + frame.len()) =~= frame);
    assert(crate::text::occurs_at(html, frame, at));
}

/// Builds the host page for `target_url`.
pub fn build_host_html(target_url_s: &str, width: u32, height: u32, shim_s: &str) -> (r: String)
    requires
        height < u32::MAX,
    ensures
        r@ == host_html(target_url_s@, width, height, shim_s@),
{
    let mut out: Vec<char> = Vec::new();
    push_str(&mut out, "<!DOCTYPE html>\n<html>\n<head>\n  <meta charset=\"UTF-8\">\n  <style>\n    * { margin: 0; padding: 0; box-sizing: border-box; }\n    html, body { width: ");
    push_decimal(&mut out, width as u128);
    push_str(&mut out, "px; height: ");
    push_decimal(&mut out, height as u128 + 1);
    push_str(&mut out, "px; overflow: hidden; background: transparent; }\n    #target {\n      position: absolute; top: 0; left: 0;\n      width: ");
    push_decimal(&mut out, width as u128);
    push_str(&mut out, "px; height: ");
    push_decimal(&mut out, height as u128);
    push_str(&mut out, "px;\n      border: none; display: block;\n    }\n    #stego {\n      position: absolute; top: ");
    push_decimal(&mut out, height as u128);
    push_str(&mut out, "px; left: 0;\n      width: ");
    push_decimal(&mut out, width as u128);
    push_str(&mut out, "px; height: 1px;\n      display: block;\n      image-rendering: pixelated;\n    }\n    @keyframes havi_heartbeat {\n      0% { opacity: 0.5; }\n      100% { opacity: 1; }\n    }\n    #heartbeat {\n      position: absolute; bottom: 0; right: 0;\n      width: 1px; height: 1px;\n      background: #000;\n      animation: havi_heartbeat 1s linear infinite;\n      pointer-events: none;\n    }\n  </style>\n</head>\n<body>\n  <iframe id=\"target\" name=\"havi_target\" src=\"");
    push_str(&mut out, target_url_s);
    push_str(&mut out, "\"></iframe>\n  <canvas id=\"stego\" width=\"");
    push_decimal(&mut out, width as u128);
    push_str(&mut out, "\" height=\"1\"></canvas>\n  <div id=\"heartbeat\"></div>\n  <script>");
    push_str(&mut out, shim_s);
    push_str(&mut out, "</script>\n</body>\n</html>\n");
    string_of(&out)
}

} // verus!
