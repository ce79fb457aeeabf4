//! Decoding a `<video>` source into PNG frames with ffmpeg: which inputs
//! are accepted, the command lines, and reading the frame size from
//! ffmpeg's banner.
use crate::text::{
    all_digits, chars_of, contains, contains_seq, find_char, first_index_of, is_digit, parse_u32,
    parse_u32_spec, push_text, slice_chars, split_char, split_on, starts_with, string_of, texts,
    trim, trim_chars, decimal, decimal_string, has_prefix,
};
use vstd::prelude::*;

verus! {

/// How a video source is handed to ffmpeg.
pub enum InputArg {
    /// A local file: this path (it must exist).
    File(String),
    /// An `http://` or `https://` URL, as it is.
    Url(String),
    /// Not a source ffmpeg is given.
    Rejected,
}

/// How `src` is handed to ffmpeg: a `file://` URL as its path, an
/// `http(s)://` URL as it is, anything else not at all.
pub fn input_arg(src: &str) -> (r: InputArg)
    ensures
        has_prefix(src@, "file://"@) ==> (r matches InputArg::File(p) && p@ == src@.skip(7)),
        !has_prefix(src@, "file://"@) && (has_prefix(src@, "http://"@) || has_prefix(src@, "https://"@))
            ==> (r matches InputArg::Url(u) && u@ == src@),
        !has_prefix(src@, "file://"@) && !has_prefix(src@, "http://"@) && !has_prefix(src@, "https://"@)
            ==> r is Rejected,
{
    let s = chars_of(src);
    let file = chars_of("file://");
    proof {
        reveal_strlit("file://");
    }
    if starts_with(&s, &file) {
        return InputArg::File(string_of(&slice_chars(&s, 7, s.len())));
    }
    let http = chars_of("http://");
    let https = chars_of("https://");
    if starts_with(&s, &http) || starts_with(&s, &https) {
        return InputArg::Url(string_of(&s));
    }
    InputArg::Rejected
}

/// The ffmpeg arguments that print the banner of `input`.
pub fn probe_args(input: &str) -> (r: Vec<String>)
    ensures
        texts(r@) == seq!["-hide_banner"@, "-i"@, input@],
{
    let mut a: Vec<String> = Vec::new();
    push_text(&mut a, "-hide_banner");
    push_text(&mut a, "-i");
    push_text(&mut a, input);
    assert(texts(a@) =~= seq!["-hide_banner"@, "-i"@, input@]);
    a
}

/// The ffmpeg arguments that decode `input` at `fps` into RGBA PNGs named
/// by `pattern`.
pub open spec fn decode_args_spec(input: Seq<char>, fps: u32, pattern: Seq<char>) -> Seq<Seq<char>> {
    seq![
        "-loglevel"@,
        "error"@,
        "-y"@,
        "-i"@,
        input,
        "-vf"@,
        "fps="@ + decimal(fps as nat),
        "-pix_fmt"@,
        "rgba"@,
        "-compression_level"@,
        "1"@,
        "-pred"@,
        "none"@,
        pattern,
    ]
}

/// The ffmpeg arguments that decode `input` into frame files.
pub fn decode_args(input: &str, fps: u32, pattern: &str) -> (r: Vec<String>)
    ensures
        texts(r@) == decode_args_spec(input@, fps, pattern@),
{
    let mut a: Vec<String> = Vec::new();
    push_text(&mut a, "-loglevel");
    push_text(&mut a, "error");
    push_text(&mut a, "-y");
    push_text(&mut a, "-i");
    push_text(&mut a, input);
    push_text(&mut a, "-vf");
    let mut f = chars_of("fps=");
    crate::text::push_decimal(&mut f, fps as u128);
    let fs = string_of(&f);
    push_text(&mut a, fs.as_str());
    push_text(&mut a, "-pix_fmt");
    push_text(&mut a, "rgba");
    push_text(&mut a, "-compression_level");
    push_text(&mut a, "1");
    push_text(&mut a, "-pred");
    push_text(&mut a, "none");
    push_text(&mut a, pattern);
    assert(texts(a@) =~= decode_args_spec(input@, fps, pattern@));
    a
}

/// The leading run of ASCII digits of `s`.
pub open spec fn leading_digits_spec(s: Seq<char>) -> Seq<char>
    decreases s.len(),
{
    if s.len() > 0 && is_digit(s[0]) {
        seq![s[0]] + leading_digits_spec(s.drop_first())
    } else {
        Seq::empty()
    }
}

/// The trailing run of ASCII digits of `s`.
pub open spec fn trailing_digits_spec(s: Seq<char>) -> Seq<char>
    decreases s.len(),
{
    if s.len() > 0 && is_digit(s.last()) {
        trailing_digits_spec(s.drop_last()).push(s.last())
    } else {
        Seq::empty()
    }
}

/// The leading run of ASCII digits of `s`.
pub fn leading_digits(s: &Vec<char>) -> (r: Vec<char>)
    ensures
        r@ == leading_digits_spec(s@),
{
    let mut k: usize = 0;
    assert(s@.take(0) + s@.skip(0) == s@);
    while k < s.len() && '0' <= s[k] && s[k] <= '9'
        invariant
            k <= s@.len(),
            leading_digits_spec(s@) == s@.take(k as int) + leading_digits_spec(s@.skip(k as int)),
        decreases s.len() - k,
    {
        assert(s@.skip(k as int).drop_first() == s@.skip(k + 1));
        assert(s@.take(k + 1) == s@.take(k as int) + seq![s@[k as int]]);
        k = k + 1;
    }
    assert(leading_digits_spec(s@.skip(k as int)) == Seq::<char>::empty());
    slice_chars(s, 0, k)
}

/// The trailing run of ASCII digits of `s`.
pub fn trailing_digits(s: &Vec<char>) -> (r: Vec<char>)
    ensures
        r@ == trailing_digits_spec(s@),
{
    let mut k: usize = s.len();
    assert(s@.take(k as int) == s@ && s@.skip(k as int) == Seq::<char>::empty());
    while k > 0 && '0' <= s[k - 1] && s[k - 1] <= '9'
        invariant
            k <= s@.len(),
            trailing_digits_spec(s@) == trailing_digits_spec(s@.take(k as int)) + s@.skip(k as int),
        decreases k,
    {
        assert(s@.take(k as int).drop_last() == s@.take(k - 1));
        assert(s@.skip(k - 1) == seq![s@[k - 1]] + s@.skip(k as int));
        k = k - 1;
    }
    assert(trailing_digits_spec(s@.take(k as int)) == Seq::<char>::empty());
    slice_chars(s, k, s.len())
}

/// `l` without one trailing carriage return.
pub open spec fn strip_cr(l: Seq<char>) -> Seq<char> {
    if l.len() > 0 && l.last() == '\r' {
        l.drop_last()
    } else {
        l
    }
}

/// The lines of `s` (as `str::lines`): split at `\n`, a `\r` before the
/// `\n` dropped, no empty line after a final `\n`.
pub open spec fn lines_spec(s: Seq<char>) -> Seq<Seq<char>> {
    let p = split_on(s, '\n');
    let body = p.drop_last().map_values(|l: Seq<char>| strip_cr(l));
    if p.last().len() == 0 {
        body
    } else {
        body.push(p.last())
    }
}

/// The frame size a `WIDTHxHEIGHT` token of a banner line gives, if any.
pub open spec fn token_dims(tok: Seq<char>) -> Option<(u32, u32)> {
    let t = trim(tok);
    match first_index_of(t, 'x') {
        None => None,
        Some(i) => match (
            parse_u32_spec(trailing_digits_spec(t.take(i))),
            parse_u32_spec(leading_digits_spec(t.skip(i + 1))),
        ) {
            (Some(w), Some(h)) => if w > 0 && h > 0 {
                Some((w, h))
            } else {
                None
            },
            _ => None,
        },
    }
}

/// The first frame size among `toks`.
pub open spec fn first_token_dims(toks: Seq<Seq<char>>) -> Option<(u32, u32)>
    decreases toks.len(),
{
    if toks.len() == 0 {
        None
    } else {
        match token_dims(toks[0]) {
            Some(d) => Some(d),
            None => first_token_dims(toks.drop_first()),
        }
    }
}

/// The frame size a banner line gives: a `Video:` line's first
/// comma-separated `WIDTHxHEIGHT` token.
pub open spec fn line_dims(line: Seq<char>) -> Option<(u32, u32)> {
    if contains_seq(line, "Video:"@) {
        first_token_dims(split_on(line, ','))
    } else {
        None
    }
}

/// The first frame size given by the lines `ls`.
pub open spec fn first_line_dims(ls: Seq<Seq<char>>) -> Option<(u32, u32)>
    decreases ls.len(),
{
    if ls.len() == 0 {
        None
    } else {
        match line_dims(ls[0]) {
            Some(d) => Some(d),
            None => first_line_dims(ls.drop_first()),
        }
    }
}

fn token_dims_exec(tok: &Vec<char>) -> (r: Option<(u32, u32)>)
    ensures
        r == token_dims(tok@),
{
    let t = trim_chars(tok);
    match find_char(&t, 'x') {
        None => None,
        Some(i) => {
            let wp = slice_chars(&t, 0, i);
            let hp = slice_chars(&t, i + 1, t.len());
            let ws = trailing_digits(&wp);
            let hs = leading_digits(&hp);
            match (parse_u32(&ws), parse_u32(&hs)) {
                (Some(w), Some(h)) => {
                    if w > 0 && h > 0 {
                        Some((w, h))
                    } else {
                        None
                    }
                },
                _ => None,
            }
        },
    }
}

fn line_dims_exec(line: &Vec<char>) -> (r: Option<(u32, u32)>)
    ensures
        r == line_dims(line@),
{
    let video = chars_of("Video:");
    if !contains(line, &video) {
        return None;
    }
    let toks = split_char(line, ',');
    let ghost ts = split_on(line@, ',');
    let mut i: usize = 0;
    assert(ts.skip(0) == ts);
    while i < toks.len()
        invariant
            i <= toks@.len(),
            toks@.len() == ts.len(),
            forall|k: int| 0 <= k < toks@.len() ==> #[trigger] toks@[k]@ == ts[k],
            line_dims(line@) == first_token_dims(ts),
            first_token_dims(ts) == first_token_dims(ts.skip(i as int)),
        decreases toks.len() - i,
    {
        let d = token_dims_exec(&toks[i]);
        assert(ts.skip(i as int)[0] == ts[i as int]);
        if d.is_some() {
            return d;
        }
        assert(ts.skip(i as int).drop_first() == ts.skip(i + 1));
        i = i + 1;
    }
    None
}

/// The lines of `s` (as `str::lines` yields them).
pub fn lines_of(s: &Vec<char>) -> (r: Vec<Vec<char>>)
    ensures
        r@.len() == lines_spec(s@).len(),
        forall|k: int| 0 <= k < r@.len() ==> #[trigger] r@[k]@ == lines_spec(s@)[k],
{
    let parts = split_char(s, '\n');
    let ghost ps = split_on(s@, '\n');
    proof {
        crate::text::lemma_split_on_nonempty(s@, '\n');
    }
    let n = parts.len();
    let mut out: Vec<Vec<char>> = Vec::new();
    let mut i: usize = 0;
    while i + 1 < n
        invariant
            n == parts@.len(),
            n == ps.len(),
            n >= 1,
            i < n,
            forall|k: int| 0 <= k < parts@.len() ==> #[trigger] parts@[k]@ == ps[k],
            out@.len() == i,
            forall|k: int| 0 <= k < i ==> #[trigger] out@[k]@ == strip_cr(ps[k]),
        decreases n - i,
    {
        let p = &parts[i];
        let line: Vec<char> = if p.len() > 0 && p[p.len() - 1] == '\r' {
            slice_chars(p, 0, p.len() - 1)
        } else {
            slice_chars(p, 0, p.len())
        };
        assert(line@ == strip_cr(ps[i as int])) by {
            assert(p@ == ps[i as int]);
            if p@.len() > 0 && p@.last() == '\r' {
                assert(p@.subrange(0, p@.len() - 1) == p@.drop_last());
            } else {
                assert(p@.subrange(0, p@.len() as int) == p@);
            }
        }
        out.push(line);
        i = i + 1;
    }
    let last = &parts[n - 1];
    if last.len() > 0 {
        out.push(slice_chars(last, 0, last.len()));
        assert(last@.subrange(0, last@.len() as int) == last@);
    }
    proof {
        let ls = lines_spec(s@);
        let body = ps.drop_last().map_values(|l: Seq<char>| strip_cr(l));
        assert(ps.last() == parts@[n - 1]@);
        assert forall|k: int| 0 <= k < out@.len() implies #[trigger] out@[k]@ == ls[k] by {
            if k < n - 1 {
                assert(body[k] == strip_cr(ps[k]));
            }
        }
    }
    out
}

/// The frame size (width, height) that ffmpeg's banner `stderr` reports:
/// the first `Video:` line with a positive `WIDTHxHEIGHT` token.
pub fn probe_dimensions(stderr: &str) -> (r: Option<(u32, u32)>)
    ensures
        r == first_line_dims(lines_spec(stderr@)),
{
    let s = chars_of(stderr);
    let ls = lines_of(&s);
    let ghost lv = lines_spec(s@);
    let mut i: usize = 0;
    assert(lv.skip(0) == lv);
    while i < ls.len()
        invariant
            i <= ls@.len(),
            ls@.len() == lv.len(),
            lv == lines_spec(stderr@),
            forall|k: int| 0 <= k < ls@.len() ==> #[trigger] ls@[k]@ == lv[k],
            first_line_dims(lv) == first_line_dims(lv.skip(i as int)),
        decreases ls.len() - i,
    {
        let d = line_dims_exec(&ls[i]);
        assert(lv.skip(i as int)[0] == lv[i as int]);
        if d.is_some() {
            return d;
        }
        assert(lv.skip(i as int).drop_first() == lv.skip(i + 1));
        i = i + 1;
    }
    assert(lv.skip(i as int).len() == 0);
    None
}

} // verus!
