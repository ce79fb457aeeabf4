//! Options of one render, with the documented defaults.
use crate::proxy::ProxyRule;
use crate::text::{decimal, decimal_string, push_text, signed_decimal, signed_decimal_string, texts};
use vstd::prelude::*;

verus! {

/// Default output path.
pub const DEFAULT_OUT: &'static str = "out.mp4";
/// Default output width in pixels.
pub const DEFAULT_WIDTH: i32 = 1920;
/// Default output height in pixels.
pub const DEFAULT_HEIGHT: i32 = 1080;
/// Default frames per second.
pub const DEFAULT_FPS: u32 = 30;
/// Default duration in seconds.
pub const DEFAULT_DURATION: u32 = 5;

/// What to render and how: every field but `source` may be left out.
pub struct RenderOpts {
    /// URL, file path, or `data:` URI of the page.
    pub source: String,
    pub out: Option<String>,
    pub width: Option<i32>,
    pub height: Option<i32>,
    pub fps: Option<u32>,
    /// Seconds to capture.
    pub duration: Option<u32>,
    /// Render partial DOM on slow load.
    pub tolerant: Option<bool>,
    pub proxy: Option<Vec<ProxyRule>>,
}

/// `v`, or `default` when absent.
pub open spec fn or_default<T>(v: Option<T>, default: T) -> T {
    match v {
        Some(x) => x,
        None => default,
    }
}

impl RenderOpts {
    /// The output path (`out.mp4` unless given).
    pub fn out_or(&self) -> (r: &str)
        ensures
            r@ == match self.out {
                Some(o) => o@,
                None => DEFAULT_OUT@,
            },
    {
        match &self.out {
            Some(o) => o.as_str(),
            None => DEFAULT_OUT,
        }
    }

    /// The width (1920 unless given).
    pub fn width_or(&self) -> (r: i32)
        ensures
            r == or_default(self.width, DEFAULT_WIDTH),
    {
        match self.width {
            Some(w) => w,
            None => DEFAULT_WIDTH,
        }
    }

    /// The height (1080 unless given).
    pub fn height_or(&self) -> (r: i32)
        ensures
            r == or_default(self.height, DEFAULT_HEIGHT),
    {
        match self.height {
            Some(h) => h,
            None => DEFAULT_HEIGHT,
        }
    }

    /// The frame rate (30 unless given).
    pub fn fps_or(&self) -> (r: u32)
        ensures
            r == or_default(self.fps, DEFAULT_FPS),
    {
        match self.fps {
            Some(f) => f,
            None => DEFAULT_FPS,
        }
    }

    /// The duration in seconds (5 unless given).
    pub fn duration_or(&self) -> (r: u32)
        ensures
            r == or_default(self.duration, DEFAULT_DURATION),
    {
        match self.duration {
            Some(d) => d,
            None => DEFAULT_DURATION,
        }
    }
}

/// The command line of the render process for `opts`; `proxy_json` is the
/// JSON text of its proxy rules, if it has any.
pub open spec fn spawn_args_spec(opts: RenderOpts, proxy_json: Option<Seq<char>>) -> Seq<Seq<char>> {
    let base = seq![
        opts.source@,
        "-W"@,
        signed_decimal(or_default(opts.width, DEFAULT_WIDTH) as int),
        "-H"@,
        signed_decimal(or_default(opts.height, DEFAULT_HEIGHT) as int),
        "-f"@,
        decimal(or_default(opts.fps, DEFAULT_FPS) as nat),
        "-t"@,
        decimal(or_default(opts.duration, DEFAULT_DURATION) as nat),
        "-o"@,
        match opts.out {
            Some(o) => o@,
            None => DEFAULT_OUT@,
        },
    ];
    let tolerant = if opts.tolerant == Some(true) {
        seq!["--tolerant"@]
    } else {
        Seq::empty()
    };
    let proxy = match proxy_json {
        Some(j) => seq!["--proxy"@, j],
        None => Seq::empty(),
    };
    base + tolerant + proxy
}

/// The arguments to start the render process for `opts` with.
pub fn spawn_args(opts: &RenderOpts, proxy_json: Option<&str>) -> (r: Vec<String>)
    ensures
        texts(r@) == spawn_args_spec(*opts, match proxy_json {
            Some(j) => Some(j@),
            None => None,
        }),
{
    let mut args: Vec<String> = Vec::new();
    push_text(&mut args, opts.source.as_str());
    push_text(&mut args, "-W");
    let w = signed_decimal_string(opts.width_or() as i64);
    push_text(&mut args, w.as_str());
    push_text(&mut args, "-H");
    let h = signed_decimal_string(opts.height_or() as i64);
    push_text(&mut args, h.as_str());
    push_text(&mut args, "-f");
    let f = decimal_string(opts.fps_or() as u64);
    push_text(&mut args, f.as_str());
    push_text(&mut args, "-t");
    let t = decimal_string(opts.duration_or() as u64);
    push_text(&mut args, t.as_str());
    push_text(&mut args, "-o");
    push_text(&mut args, opts.out_or());
    if opts.tolerant == Some(true) {
        push_text(&mut args, "--tolerant");
    }
    match proxy_json {
        Some(j) => {
            push_text(&mut args, "--proxy");
            push_text(&mut args, j);
        },
        None => {},
    }
    assert(texts(args@) =~= spawn_args_spec(*opts, match proxy_json {
        Some(j) => Some(j@),
        None => None,
    }));
    args
}

/// Proxy rules go to the render process whatever else the options say:
/// giving their JSON `j` adds exactly `--proxy`, `j` at the end of the
/// arguments that the same options give without rules (eleven, or twelve
/// with `--tolerant`).
pub proof fn law_proxy_rules_always_passed(opts: RenderOpts, j: Seq<char>)
    ensures
        spawn_args_spec(opts, Some(j)) == spawn_args_spec(opts, None) + seq!["--proxy"@, j],
        spawn_args_spec(opts, Some(j)).len() >= 2,
        spawn_args_spec(opts, Some(j))[spawn_args_spec(opts, Some(j)).len() - 2] == "--proxy"@,
        spawn_args_spec(opts, Some(j)).last() == j,
        spawn_args_spec(opts, None).len() == 11 || spawn_args_spec(opts, None).len() == 12,
{
    assert(spawn_args_spec(opts, Some(j)) =~= spawn_args_spec(opts, None) + seq!["--proxy"@, j]);
}

/// Each option given is passed as given, and each one left out gets its
/// documented default: width 1920, height 1080, 30 frames per second,
/// 5 seconds, output `out.mp4`; the page comes first, and `--tolerant`
/// follows the eleven arguments exactly when tolerant rendering is on.
pub proof fn law_documented_defaults(opts: RenderOpts)
    ensures
        ({
            let a = spawn_args_spec(opts, None);
            &&& a[0] == opts.source@
            &&& a[1] == "-W"@ && a[3] == "-H"@ && a[5] == "-f"@ && a[7] == "-t"@ && a[9] == "-o"@
            &&& a[2] == signed_decimal(
                match opts.width {
                    Some(w) => w as int,
                    None => 1920int,
                },
            )
            &&& a[4] == signed_decimal(
                match opts.height {
                    Some(h) => h as int,
                    None => 1080int,
                },
            )
            &&& a[6] == decimal(
                match opts.fps {
                    Some(f) => f as nat,
                    None => 30nat,
                },
            )
            &&& a[8] == decimal(
                match opts.duration {
                    Some(d) => d as nat,
                    None => 5nat,
                },
            )
            &&& a[10] == match opts.out {
                Some(o) => o@,
                None => "out.mp4"@,
            }
            &&& (a.len() == 12 <==> opts.tolerant == Some(true))
            &&& a.len() == 12 ==> a[11] == "--tolerant"@
        }),
{
    let a = spawn_args_spec(opts, None);
    assert(a.len() == 11 || a.len() == 12);
}

} // verus!
