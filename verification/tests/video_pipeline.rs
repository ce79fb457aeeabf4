use havi_core::video::session::{wait_frame_step, WaitStep};
use std::collections::hash_map::DefaultHasher;
use std::hash::{Hash, Hasher};

use havi_core::cef::resource::SyntheticResource;
use havi_core::video::decode::{decode_args, input_arg, probe_args, probe_dimensions, InputArg};
use havi_core::video::encoder::{codec_args, encoder_args, x265_params};
use havi_core::video::scheme::{empty_reply, frame_reply, open_reply, route, Route, SCHEME};
use havi_core::video::scheme_url::parse_url;
use havi_core::video::session::{frame_file_name, id_for};

fn strs(v: &[String]) -> Vec<&str> {
    v.iter().map(|s| s.as_str()).collect()
}

const X265: [&str; 14] = [
    "-c:v", "libx265", "-preset", "fast", "-crf", "23", "-pix_fmt", "yuva420p", "-tag:v", "hvc1",
    "-x265-params", "P", "-movflags", "+faststart",
];
const VP9: [&str; 12] = [
    "-c:v", "libvpx-vp9", "-pix_fmt", "yuva420p", "-b:v", "4M", "-deadline", "realtime", "-cpu-used", "8",
    "-row-mt", "1",
];

#[test]
fn inputs_handed_to_ffmpeg() {
    assert!(matches!(input_arg("file:///tmp/a b.mp4"), InputArg::File(p) if p == "/tmp/a b.mp4"));
    assert!(matches!(input_arg("https://x.example/v.mp4"), InputArg::Url(u) if u == "https://x.example/v.mp4"));
    assert!(matches!(input_arg("http://x.example/v.mp4"), InputArg::Url(_)));
    assert!(matches!(input_arg("/tmp/a.mp4"), InputArg::Rejected));
    assert!(matches!(input_arg("data:video/mp4;base64,AAAA"), InputArg::Rejected));
    assert_eq!(strs(&probe_args("in.mp4")), vec!["-hide_banner", "-i", "in.mp4"]);
    assert_eq!(
        strs(&decode_args("in.mp4", 24, "/tmp/f/%06d.png")),
        vec![
            "-loglevel", "error", "-y", "-i", "in.mp4", "-vf", "fps=24", "-pix_fmt", "rgba",
            "-compression_level", "1", "-pred", "none", "/tmp/f/%06d.png",
        ]
    );
}

#[test]
fn banner_dimensions() {
    let banner = "Input #0, mov,mp4,m4a,3gp,3g2,mj2, from 'a.mp4':\r\n  Duration: 00:00:10.00, start: 0.000000, bitrate: 1000 kb/s\r\n  Stream #0:0(und): Video: h264 (High) (avc1 / 0x31637661), yuv420p(tv, bt709), 1280x720 [SAR 1:1 DAR 16:9], 30 fps\r\n  Stream #0:1(und): Video: h264, yuv420p, 640x360\n";
    assert_eq!(probe_dimensions(banner), Some((1280, 720)));
    assert_eq!(probe_dimensions("Stream: Audio: aac, 44100 Hz, stereo"), None);
    assert_eq!(probe_dimensions("Video: raw, 0x0, 2x3"), Some((2, 3)));
    assert_eq!(probe_dimensions("1920x1080\nVideo: none"), None);
    assert_eq!(probe_dimensions(""), None);
}

#[test]
fn codec_by_extension() {
    assert_eq!(strs(&codec_args("movie.mp4", "P")), X265.to_vec());
    assert_eq!(strs(&codec_args("movie.WebM", "P")), VP9.to_vec());
    assert_eq!(strs(&codec_args("webm", "P")), X265.to_vec());
    assert_eq!(strs(&codec_args("dir.webm/movie", "P")), X265.to_vec());
    assert_eq!(x265_params(8), "log-level=1:alpha=1:pools=8:frame-threads=8:no-info=1");
}

#[test]
fn encoder_command_line() {
    let outs = vec!["a.mp4".to_string(), "b.webm".to_string()];
    let args = encoder_args(800, 600, 30, &outs, 4);
    let mut want: Vec<&str> = vec![
        "-loglevel", "error", "-y", "-f", "rawvideo", "-pixel_format", "bgra", "-video_size", "800x600",
        "-framerate", "30", "-i", "-",
    ];
    let params = "log-level=1:alpha=1:pools=4:frame-threads=4:no-info=1";
    for a in X265 {
        want.push(if a == "P" { params } else { a });
    }
    want.push("a.mp4");
    want.extend(VP9);
    want.push("b.webm");
    assert_eq!(strs(&args), want);
}

#[test]
fn session_ids_and_frame_files() {
    let mut h = DefaultHasher::new();
    "file:///a.mp4".hash(&mut h);
    30u32.hash(&mut h);
    let want = format!("{:016x}", h.finish());
    let id = id_for("file:///a.mp4", 30);
    assert_eq!(id, want);
    assert_eq!(id.len(), 16);
    assert!(id.chars().all(|c| c.is_ascii_hexdigit() && !c.is_ascii_uppercase()));
    assert_eq!(id_for("file:///a.mp4", 30), id);
    assert_ne!(id_for("file:///a.mp4", 24), id);
    assert_eq!(frame_file_name(7), "000007.png");
    assert_eq!(frame_file_name(0), "000000.png");
    assert_eq!(frame_file_name(1234567), "1234567.png");
}

#[test]
fn scheme_routes() {
    assert_eq!(SCHEME, "havi-frame");
    let q = parse_url("havi-frame://open?src=file%3A%2F%2F%2Fa.mp4&fps=24", SCHEME).unwrap();
    assert!(matches!(route(&q), Route::Open { src, fps } if src == "file:///a.mp4" && fps == 24));
    let q = parse_url("havi-frame://open?fps=lots", SCHEME).unwrap();
    assert!(matches!(route(&q), Route::Open { src, fps } if src.is_empty() && fps == 30));
    let q = parse_url("havi-frame://frame/?id=abc&idx=12", SCHEME).unwrap();
    assert!(matches!(route(&q), Route::Frame { id, idx } if id == "abc" && idx == 12));
    let q = parse_url("havi-frame://frame?id=abc", SCHEME).unwrap();
    assert!(matches!(route(&q), Route::Frame { idx, .. } if idx == 1));
    let q = parse_url("havi-frame://close?id=abc", SCHEME).unwrap();
    assert!(matches!(route(&q), Route::Close { id } if id == "abc"));
    let q = parse_url("havi-frame://dom-ready", SCHEME).unwrap();
    assert!(matches!(route(&q), Route::DomReady));
    let q = parse_url("havi-frame://nope", SCHEME).unwrap();
    assert!(matches!(route(&q), Route::NotFound));
}

fn check(r: &SyntheticResource, mime: &str, status: u16, body: &[u8]) {
    assert_eq!(r.mime, mime);
    assert_eq!(r.status, status);
    assert_eq!(r.bytes, body.to_vec());
    assert!(r.headers.is_empty());
    assert_eq!(r.pos, 0);
}

#[test]
fn scheme_replies() {
    check(&empty_reply("text/plain", 404), "text/plain", 404, b"");
    check(&open_reply(Some("{\"id\":\"x\"}".to_string())), "application/json", 200, b"{\"id\":\"x\"}");
    check(&open_reply(None), "application/json", 404, b"");
    check(&frame_reply(false, Some(vec![1, 2])), "image/png", 404, b"");
    check(&frame_reply(true, None), "image/png", 410, b"");
    check(&frame_reply(true, Some(vec![137, 80, 78, 71])), "image/png", 200, &[137, 80, 78, 71]);
}

#[test]
fn waiting_for_frames() {
    assert!(matches!(wait_frame_step(true, 0, 5, true, true), WaitStep::Deliver));
    assert!(matches!(wait_frame_step(false, 5, 5, false, false), WaitStep::Retry));
    assert!(matches!(wait_frame_step(false, 9, 5, true, true), WaitStep::Retry));
    assert!(matches!(wait_frame_step(false, 4, 5, true, false), WaitStep::GiveUp));
    assert!(matches!(wait_frame_step(false, 4, 5, false, true), WaitStep::GiveUp));
    assert!(matches!(wait_frame_step(false, 4, 5, false, false), WaitStep::Wait));
}

#[test]
fn codec_follows_the_extension() {
    assert_eq!(strs(&codec_args("clip.WEBM", "p"))[1], "libvpx-vp9");
    assert_eq!(strs(&codec_args("out/clip.webm", "p"))[1], "libvpx-vp9");
    assert_eq!(strs(&codec_args("o.mp4", "p"))[1], "libx265");
    assert_eq!(strs(&codec_args(".webm", "p"))[1], "libx265");
    assert_eq!(strs(&codec_args("a.webm.mp4", "p"))[1], "libx265");
}
