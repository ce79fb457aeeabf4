//! The ffmpeg command line of the encoder: raw BGRA frames in, one output
//! per path, the codec picked by the path's extension.
use crate::text::{
    ascii_lower, chars_of, decimal, eq_ignore_ascii_case, eq_ignore_ascii_case_exec, has_prefix, last_index_of,
    push_decimal, push_str, push_text, signed_decimal, string_of, texts,
};
use vstd::prelude::*;

verus! {

/// The last `/`-separated segment of `path` (all of it when it holds no
/// `/`).
pub open spec fn last_segment(path: Seq<char>) -> Seq<char> {
    match last_index_of(path, '/') {
        Some(i) => path.skip(i + 1),
        None => path,
    }
}

/// A path that every platform splits into the same file name: it holds no
/// `\` or `:` (a Windows separator and drive prefix), does not start with
/// `//` (a Windows share), does not end in `/`, and its last segment is not
/// `.` (which the path's components drop). Its file name is then its last
/// segment.
pub open spec fn plain_path(path: Seq<char>) -> bool {
    &&& !path.contains('\\')
    &&& !path.contains(':')
    &&& !has_prefix(path, seq!['/', '/'])
    &&& !(path.len() > 0 && path.last() == '/')
    &&& last_segment(path) != seq!['.']
}

/// The extension of a file name, as `Path::extension` documents it: what
/// follows its last `.`; none when it has no `.`, when its only `.` is the
/// first character, or when it is `..` (which names no file).
pub open spec fn name_extension(name: Seq<char>) -> Option<Seq<char>> {
    if name == seq!['.', '.'] {
        None
    } else {
        match last_index_of(name, '.') {
            Some(i) => if i == 0 {
                None
            } else {
                Some(name.skip(i + 1))
            },
            None => None,
        }
    }
}

/// The extension of a plain path: that of its last segment.
pub open spec fn path_extension_spec(path: Seq<char>) -> Option<Seq<char>> {
    name_extension(last_segment(path))
}

/// What `Path::extension` may find in `path` on any platform: nothing when
/// the path holds no `.`, never a text holding a `.` (the extension is what
/// follows the last `.` of the file name), and, for a plain path, exactly
/// the extension of its last segment.
pub open spec fn possible_extension(path: Seq<char>, ext: Option<Seq<char>>) -> bool {
    &&& !path.contains('.') ==> ext is None
    &&& ext matches Some(e) ==> !e.contains('.')
    &&& plain_path(path) ==> ext == path_extension_spec(path)
}

/// Calls `std::path::Path::extension` on `path`. Which file name a path
/// ends in depends on the platform's separators and prefixes, so the
/// extension is stated exactly only for plain paths, which every platform
/// reads alike; for other paths only what holds on every platform is
/// stated.
#[verifier::external_body]
fn extension_of(path: &str) -> (r: Option<String>)
    ensures
        possible_extension(
            path@,
            match r {
                Some(e) => Some(e@),
                None => None,
            },
        ),
{
    match std::path::Path::new(path).extension() {
        Some(e) => Some(e.to_string_lossy().into_owned()),
        None => None,
    }
}

/// The codec arguments for an output with extension `ext`: VP9 with alpha
/// for `.webm` (any case), else HEVC with alpha in an MP4 with `x265`
/// parameters.
pub open spec fn codec_args_spec(ext: Option<Seq<char>>, x265: Seq<char>) -> Seq<Seq<char>> {
    let webm = match ext {
        Some(e) => eq_ignore_ascii_case(e, "webm"@),
        None => false,
    };
    if webm {
        seq![
            "-c:v"@,
            "libvpx-vp9"@,
            "-pix_fmt"@,
            "yuva420p"@,
            "-b:v"@,
            "4M"@,
            "-deadline"@,
            "realtime"@,
            "-cpu-used"@,
            "8"@,
            "-row-mt"@,
            "1"@,
        ]
    } else {
        seq![
            "-c:v"@,
            "libx265"@,
            "-preset"@,
            "fast"@,
            "-crf"@,
            "23"@,
            "-pix_fmt"@,
            "yuva420p"@,
            "-tag:v"@,
            "hvc1"@,
            "-x265-params"@,
            x265,
            "-movflags"@,
            "+faststart"@,
        ]
    }
}

/// The codec arguments for an output whose extension is `ext`.
pub fn codec_args_for(ext: Option<&str>, x265: &str) -> (r: Vec<String>)
    ensures
        texts(r@) == codec_args_spec(
            match ext {
                Some(e) => Some(e@),
                None => None,
            },
            x265@,
        ),
{
    let webm = match ext {
        Some(e) => {
            let ec = chars_of(e);
            let w = chars_of("webm");
            eq_ignore_ascii_case_exec(&ec, &w)
        },
        None => false,
    };
    let mut a: Vec<String> = Vec::new();
    if webm {
        push_text(&mut a, "-c:v");
        push_text(&mut a, "libvpx-vp9");
        push_text(&mut a, "-pix_fmt");
        push_text(&mut a, "yuva420p");
        push_text(&mut a, "-b:v");
        push_text(&mut a, "4M");
        push_text(&mut a, "-deadline");
        push_text(&mut a, "realtime");
        push_text(&mut a, "-cpu-used");
        push_text(&mut a, "8");
        push_text(&mut a, "-row-mt");
        push_text(&mut a, "1");
    } else {
        push_text(&mut a, "-c:v");
        push_text(&mut a, "libx265");
        push_text(&mut a, "-preset");
        push_text(&mut a, "fast");
        push_text(&mut a, "-crf");
        push_text(&mut a, "23");
        push_text(&mut a, "-pix_fmt");
        push_text(&mut a, "yuva420p");
        push_text(&mut a, "-tag:v");
        push_text(&mut a, "hvc1");
        push_text(&mut a, "-x265-params");
        push_text(&mut a, x265);
        push_text(&mut a, "-movflags");
        push_text(&mut a, "+faststart");
    }
    assert(texts(a@) =~= codec_args_spec(
        match ext {
            Some(e) => Some(e@),
            None => None,
        },
        x265@,
    ));
    a
}

/// The codec arguments for the output path `out`, picked by the extension
/// `Path::extension` finds in it: for a plain path, that of its last
/// segment (so `clip.WEBM` gets VP9 and `o.mp4` HEVC).
pub fn codec_args(out: &str, x265: &str) -> (r: Vec<String>)
    ensures
        plain_path(out@) ==> texts(r@) == codec_args_spec(path_extension_spec(out@), x265@),
        exists|e: Option<Seq<char>>|
            possible_extension(out@, e) && texts(r@) == #[trigger] codec_args_spec(e, x265@),
{
    let ext = extension_of(out);
    match ext {
        Some(e) => codec_args_for(Some(e.as_str()), x265),
        None => codec_args_for(None, x265),
    }
}

/// The x265 parameters for `threads` worker threads.
pub open spec fn x265_params_spec(threads: usize) -> Seq<char> {
    "log-level=1:alpha=1:pools="@ + decimal(threads as nat) + ":frame-threads="@ + decimal(
        threads as nat,
    ) + ":no-info=1"@
}

/// The x265 parameters for `threads` worker threads.
pub fn x265_params(threads: usize) -> (r: String)
    ensures
        r@ == x265_params_spec(threads),
{
    let mut p = chars_of("log-level=1:alpha=1:pools=");
    push_decimal(&mut p, threads as u128);
    push_str(&mut p, ":frame-threads=");
    push_decimal(&mut p, threads as u128);
    push_str(&mut p, ":no-info=1");
    string_of(&p)
}

/// The input arguments: raw BGRA frames of `width`x`height` at `fps` on
/// standard input.
pub open spec fn input_args_spec(width: i32, height: i32, fps: u32) -> Seq<Seq<char>> {
    seq![
        "-loglevel"@,
        "error"@,
        "-y"@,
        "-f"@,
        "rawvideo"@,
        "-pixel_format"@,
        "bgra"@,
        "-video_size"@,
        signed_decimal(width as int) + "x"@ + signed_decimal(height as int),
        "-framerate"@,
        decimal(fps as nat),
        "-i"@,
        "-"@,
    ]
}

/// The arguments for each output: the codec arguments for its extension
/// (`exts`, one per output), then its path.
pub open spec fn output_args_spec(outs: Seq<Seq<char>>, exts: Seq<Option<Seq<char>>>, x265: Seq<char>) -> Seq<
    Seq<char>,
>
    decreases outs.len(),
{
    if outs.len() == 0 {
        Seq::empty()
    } else {
        output_args_spec(outs.drop_last(), exts.drop_last(), x265) + codec_args_spec(exts.last(), x265).push(
            outs.last(),
        )
    }
}

/// `exts` holds, for each output path, an extension `Path::extension` may
/// find in it.
pub open spec fn possible_extensions(outs: Seq<Seq<char>>, exts: Seq<Option<Seq<char>>>) -> bool {
    &&& exts.len() == outs.len()
    &&& forall|i: int| 0 <= i < outs.len() ==> #[trigger] possible_extension(outs[i], exts[i])
}

/// The full ffmpeg command line of the encoder; each output's codec is
/// picked by its extension, exactly so when every output is a plain path.
pub fn encoder_args(width: i32, height: i32, fps: u32, outs: &Vec<String>, threads: usize) -> (r: Vec<
    String,
>)
    ensures
        (forall|i: int| 0 <= i < outs@.len() ==> plain_path(#[trigger] outs@[i]@)) ==> texts(r@)
            == input_args_spec(width, height, fps) + output_args_spec(
            texts(outs@),
            texts(outs@).map_values(|o: Seq<char>| path_extension_spec(o)),
            x265_params_spec(threads),
        ),
        exists|exts: Seq<Option<Seq<char>>>|
            possible_extensions(texts(outs@), exts) && texts(r@) == input_args_spec(width, height, fps)
                + #[trigger] output_args_spec(texts(outs@), exts, x265_params_spec(threads)),
{
    let x265 = x265_params(threads);
    let mut a: Vec<String> = Vec::new();
    push_text(&mut a, "-loglevel");
    push_text(&mut a, "error");
    push_text(&mut a, "-y");
    push_text(&mut a, "-f");
    push_text(&mut a, "rawvideo");
    push_text(&mut a, "-pixel_format");
    push_text(&mut a, "bgra");
    push_text(&mut a, "-video_size");
    let mut size: Vec<char> = Vec::new();
    crate::text::push_signed_decimal(&mut size, width as i64);
    push_str(&mut size, "x");
    crate::text::push_signed_decimal(&mut size, height as i64);
    let size_s = string_of(&size);
    push_text(&mut a, size_s.as_str());
    push_text(&mut a, "-framerate");
    let fps_s = crate::text::decimal_string(fps as u64);
    push_text(&mut a, fps_s.as_str());
    push_text(&mut a, "-i");
    push_text(&mut a, "-");
    assert(texts(a@) =~= input_args_spec(width, height, fps));
    let ghost head = texts(a@);
    let ghost mut exts: Seq<Option<Seq<char>>> = Seq::empty();
    let mut i: usize = 0;
    assert(texts(outs@).take(0) =~= Seq::<Seq<char>>::empty());
    assert(head + output_args_spec(texts(outs@).take(0), exts, x265@) =~= head);
    while i < outs.len()
        invariant
            i <= outs@.len(),
            possible_extensions(texts(outs@).take(i as int), exts),
            texts(a@) == head + output_args_spec(texts(outs@).take(i as int), exts, x265@),
        decreases outs.len() - i,
    {
        let c = codec_args(outs[i].as_str(), x265.as_str());
        let ghost e = choose|e: Option<Seq<char>>|
            possible_extension(outs@[i as int]@, e) && texts(c@) == #[trigger] codec_args_spec(e, x265@);
        let ghost before = a@;
        let mut k: usize = 0;
        while k < c.len()
            invariant
                k <= c@.len(),
                texts(a@) == texts(before) + texts(c@).take(k as int),
            decreases c.len() - k,
        {
            let ghost b2 = a@;
            push_text(&mut a, c[k].as_str());
            assert(texts(c@).take(k + 1) == texts(c@).take(k as int).push(c@[k as int]@));
            k = k + 1;
        }
        assert(texts(c@).take(c@.len() as int) == texts(c@));
        push_text(&mut a, outs[i].as_str());
        proof {
            let ts = texts(outs@);
            let old_exts = exts;
            exts = exts.push(e);
            assert(ts.take(i + 1).drop_last() == ts.take(i as int));
            assert(ts.take(i + 1).last() == outs@[i as int]@);
            assert(exts.drop_last() == old_exts);
            assert(texts(a@) =~= head + output_args_spec(ts.take(i + 1), exts, x265@));
            assert forall|j: int| 0 <= j < ts.take(i + 1).len() implies #[trigger] possible_extension(
                ts.take(i + 1)[j],
                exts[j],
            ) by {
                if j < i {
                    assert(ts.take(i + 1)[j] == ts.take(i as int)[j]);
                }
            }
        }
        i = i + 1;
    }
    assert(texts(outs@).take(outs@.len() as int) == texts(outs@));
    proof {
        if forall|i: int| 0 <= i < outs@.len() ==> plain_path(#[trigger] outs@[i]@) {
            assert forall|j: int| 0 <= j < exts.len() implies exts[j] == texts(outs@).map_values(
                |o: Seq<char>| path_extension_spec(o),
            )[j] by {
                assert(plain_path(outs@[j]@));
                assert(possible_extension(texts(outs@)[j], exts[j]));
            }
            assert(exts =~= texts(outs@).map_values(|o: Seq<char>| path_extension_spec(o)));
        }
    }
    a
}

/// Only `webm` (in any ASCII case) picks VP9: an extension of the four
/// letters w, e, b, m, each in either case, gets `libvpx-vp9`; every other
/// extension gets exactly what an output without extension gets, HEVC
/// (`libx265`) with the x265 parameters.
pub proof fn law_only_webm_picks_vp9(ext: Seq<char>, x265: Seq<char>)
    ensures
        ({
            let webm = ext.len() == 4 && (ext[0] == 'w' || ext[0] == 'W') && (ext[1] == 'e'
                || ext[1] == 'E') && (ext[2] == 'b' || ext[2] == 'B') && (ext[3] == 'm' || ext[3]
                == 'M');
            &&& webm ==> codec_args_spec(Some(ext), x265)[1] == "libvpx-vp9"@
            &&& !webm ==> codec_args_spec(Some(ext), x265) == codec_args_spec(None, x265)
        }),
        codec_args_spec(None, x265)[1] == "libx265"@,
        codec_args_spec(None, x265)[11] == x265,
{
    reveal_strlit("webm");
    let w = "webm"@;
    assert(w =~= seq!['w', 'e', 'b', 'm']);
    let webm = ext.len() == 4 && (ext[0] == 'w' || ext[0] == 'W') && (ext[1] == 'e' || ext[1]
        == 'E') && (ext[2] == 'b' || ext[2] == 'B') && (ext[3] == 'm' || ext[3] == 'M');
    if ext.len() == 4 {
        assert(ascii_lower(ext[0]) == 'w' <==> (ext[0] == 'w' || ext[0] == 'W'));
        assert(ascii_lower(ext[1]) == 'e' <==> (ext[1] == 'e' || ext[1] == 'E'));
        assert(ascii_lower(ext[2]) == 'b' <==> (ext[2] == 'b' || ext[2] == 'B'));
        assert(ascii_lower(ext[3]) == 'm' <==> (ext[3] == 'm' || ext[3] == 'M'));
        assert(ascii_lower('w') == 'w' && ascii_lower('e') == 'e' && ascii_lower('b') == 'b'
            && ascii_lower('m') == 'm');
        if webm {
            assert forall|i: int| 0 <= i < ext.len() implies ascii_lower(ext[i]) == ascii_lower(
                w[i],
            ) by {
                assert(i == 0 || i == 1 || i == 2 || i == 3);
            }
        } else {
            if eq_ignore_ascii_case(ext, w) {
                assert(ascii_lower(ext[0]) == ascii_lower(w[0]));
                assert(ascii_lower(ext[1]) == ascii_lower(w[1]));
                assert(ascii_lower(ext[2]) == ascii_lower(w[2]));
                assert(ascii_lower(ext[3]) == ascii_lower(w[3]));
            }
        }
    }
    assert(webm <==> eq_ignore_ascii_case(ext, w));
}

} // verus!
