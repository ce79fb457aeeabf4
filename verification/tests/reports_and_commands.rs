use havi_core::cef::app::{iframe_hook_source, DATE_ORIGIN_PLACEHOLDER};
use havi_core::cef::cdp::method_error_line;
use havi_core::text::replace_chars;
use havi_core::api::{spawn_args, RenderOpts, DEFAULT_DURATION, DEFAULT_FPS, DEFAULT_HEIGHT, DEFAULT_OUT, DEFAULT_WIDTH};
use havi_core::cef::app::switch_of;
use havi_core::cef::client::{console_location, map_level, SEVERITY_ERROR, SEVERITY_WARNING};
use havi_core::cef::mac::CapApplicationIvars;
use havi_core::cli::Cli;
use havi_core::common::ipc::{console, error, level_name, Level, Msg, Output};
use havi_core::common::sandbox::{scratch_dir_name, PidRegistry};
use havi_core::host::run::{max_parallel_from, DEFAULT_MAX_PARALLEL};
use havi_core::napi::{render_step, RenderStep};

fn opts(source: &str) -> RenderOpts {
    RenderOpts {
        source: source.to_string(),
        out: None,
        width: None,
        height: None,
        fps: None,
        duration: None,
        tolerant: None,
        proxy: None,
    }
}

fn cli(out: &str) -> Cli {
    Cli {
        source: "page.html".to_string(),
        width: 1920,
        height: 1080,
        fps: 30,
        duration: 5,
        out: out.to_string(),
        tolerant: false,
        proxy: None,
    }
}

#[test]
fn defaults_follow_the_readme() {
    let o = opts("a.html");
    assert_eq!(o.out_or(), "out.mp4");
    assert_eq!(DEFAULT_OUT, "out.mp4");
    assert_eq!((o.width_or(), o.height_or()), (1920, 1080));
    assert_eq!((DEFAULT_WIDTH, DEFAULT_HEIGHT), (1920, 1080));
    assert_eq!((o.fps_or(), o.duration_or()), (30, 5));
    assert_eq!((DEFAULT_FPS, DEFAULT_DURATION), (30, 5));
}

#[test]
fn spawn_args_with_defaults() {
    let args = spawn_args(&opts("https://example.com"), None);
    let want: Vec<&str> = vec!["https://example.com", "-W", "1920", "-H", "1080", "-f", "30", "-t", "5", "-o", "out.mp4"];
    assert_eq!(args, want);
}

#[test]
fn spawn_args_with_everything() {
    let mut o = opts("a.html");
    o.out = Some("x.webm".to_string());
    o.width = Some(-4);
    o.height = Some(600);
    o.fps = Some(60);
    o.duration = Some(12);
    o.tolerant = Some(true);
    let args = spawn_args(&o, Some("[{\"pattern\":\"*\"}]"));
    let want: Vec<&str> = vec![
        "a.html", "-W", "-4", "-H", "600", "-f", "60", "-t", "12", "-o", "x.webm", "--tolerant", "--proxy",
        "[{\"pattern\":\"*\"}]",
    ];
    assert_eq!(args, want);
    o.tolerant = Some(false);
    assert!(!spawn_args(&o, None).iter().any(|a| a == "--tolerant"));
}

#[test]
fn outputs_are_trimmed_and_nonempty() {
    assert_eq!(cli("out.mp4,out.webm").outputs(), vec!["out.mp4", "out.webm"]);
    assert_eq!(cli(" a.mp4 , ,b.webm ,").outputs(), vec!["a.mp4", "b.webm"]);
    assert!(cli(" , ").outputs().is_empty());
    assert_eq!(cli("out.mp4").total_frames(), 150);
}

#[test]
fn error_and_console_reports() {
    match error(true, "boom") {
        Output::Emit(Msg::Error { message }) => assert_eq!(message, "boom"),
        _ => panic!("expected an error message"),
    }
    match error(false, "boom") {
        Output::Log(line) => assert_eq!(line, "error: boom"),
        _ => panic!("expected a log line"),
    }
    match console(true, Level::Warn, "app.js:3", "careful") {
        Output::Emit(Msg::Console { level, source, message }) => {
            assert!(matches!(level, Level::Warn));
            assert_eq!(source, "app.js:3");
            assert_eq!(message, "careful");
        },
        _ => panic!("expected a console message"),
    }
    match console(false, Level::Info, "app.js:3", "hello") {
        Output::Log(line) => assert_eq!(line, "info: hello"),
        _ => panic!("expected a log line"),
    }
    assert_eq!(level_name(&Level::Error), "error");
}

#[test]
fn console_severity_and_location() {
    assert!(matches!(map_level(0), Level::Info));
    assert!(matches!(map_level(SEVERITY_WARNING), Level::Warn));
    assert!(matches!(map_level(SEVERITY_ERROR), Level::Error));
    assert!(matches!(map_level(99), Level::Error));
    assert!(matches!(map_level(-1), Level::Info));
    assert_eq!(console_location("https://a.example/app.js", 42), "https://a.example/app.js:42");
    assert_eq!(console_location("x", -1), "x:-1");
}

#[test]
fn switches_split_at_first_equals() {
    let s = switch_of("--lang=en-US=x");
    assert_eq!(s.name, "--lang");
    assert_eq!(s.value.as_deref(), Some("en-US=x"));
    let bare = switch_of("--headless");
    assert_eq!(bare.name, "--headless");
    assert!(bare.value.is_none());
    let empty = switch_of("--x=");
    assert_eq!(empty.value.as_deref(), Some(""));
}

#[test]
fn send_event_flag_is_restored() {
    let mut iv = CapApplicationIvars::new();
    assert!(!iv.is_handling_send_event());
    let was = iv.begin_send_event();
    assert!(!was);
    assert!(iv.is_handling_send_event());
    let inner = iv.begin_send_event();
    assert!(inner);
    iv.end_send_event(inner);
    assert!(iv.is_handling_send_event());
    iv.end_send_event(was);
    assert!(!iv.is_handling_send_event());
    iv.set_handling_send_event(true);
    assert!(iv.is_handling_send_event());
}

#[test]
fn render_steps() {
    assert!(matches!(render_step(Some(Msg::Progress { frame: 3, total: 9 }), false),
        RenderStep::Progress(e) if e.frame == 3 && e.total == 9));
    match render_step(Some(Msg::Console { level: Level::Warn, source: "s".to_string(), message: "m".to_string() }), false) {
        RenderStep::Console(e) => assert_eq!((e.level.as_str(), e.source.as_str(), e.message.as_str()), ("warn", "s", "m")),
        _ => panic!("expected console"),
    }
    let done = Msg::Done { frames: 150, width: 800, height: 600, fps: 30, out: "o.mp4".to_string(), elapsed_ms: 5_000_000_000 };
    match render_step(Some(done), false) {
        RenderStep::Resolve(r) => {
            assert_eq!((r.frames, r.width, r.height, r.fps), (150, 800, 600, 30));
            assert_eq!(r.out, "o.mp4");
            assert_eq!(r.elapsed_ms, u32::MAX);
        },
        _ => panic!("expected resolve"),
    }
    match render_step(Some(Msg::Error { message: "bad".to_string() }), true) {
        RenderStep::Reject(m) => assert_eq!(m, "bad"),
        _ => panic!("expected reject"),
    }
    match render_step(None, true) {
        RenderStep::Reject(m) => assert_eq!(m, "aborted"),
        _ => panic!("expected reject"),
    }
    match render_step(None, false) {
        RenderStep::Reject(m) => assert_eq!(m, "render exited without done"),
        _ => panic!("expected reject"),
    }
}

#[test]
fn pid_registry_tracks_live_encoders() {
    let mut reg = PidRegistry::new();
    reg.register_ffmpeg(0);
    reg.register_ffmpeg(4242);
    reg.register_ffmpeg(4242);
    reg.register_ffmpeg(77);
    reg.register_ffmpeg(u32::MAX);
    reg.unregister_ffmpeg(77);
    let mut pids = reg.drain();
    pids.sort();
    assert_eq!(pids, vec![4242]);
    assert!(reg.drain().is_empty());
}

#[test]
fn scratch_dir_names() {
    assert_eq!(scratch_dir_name(1234, 0xabc), "havi-1234-abc");
    assert_eq!(scratch_dir_name(0, 0), "havi-0-0");
}

#[test]
fn parallelism_from_environment() {
    assert_eq!(DEFAULT_MAX_PARALLEL, 4);
    assert_eq!(max_parallel_from(None), 4);
    assert_eq!(max_parallel_from(Some("8")), 8);
    assert_eq!(max_parallel_from(Some("+3")), 3);
    assert_eq!(max_parallel_from(Some(" 2 ")), 4);
    assert_eq!(max_parallel_from(Some("lots")), 4);
    assert_eq!(max_parallel_from(Some("0")), 4);
}

#[test]
fn iframe_hook_gets_its_clock_origin() {
    assert_eq!(DATE_ORIGIN_PLACEHOLDER, "__HAVI_DATE_ORIGIN__");
    let t = "const o=__HAVI_DATE_ORIGIN__;Date.o=__HAVI_DATE_ORIGIN__;_";
    assert_eq!(iframe_hook_source(t, 1700000000123), "const o=1700000000123;Date.o=1700000000123;_");
    assert_eq!(iframe_hook_source("no placeholder", 5), "no placeholder");
    assert_eq!(iframe_hook_source("__HAVI_DATE_ORIGIN", 5), "__HAVI_DATE_ORIGIN");
    let big = u128::MAX;
    assert_eq!(iframe_hook_source(t, big), t.replace("__HAVI_DATE_ORIGIN__", &big.to_string()));
}

#[test]
fn failed_devtools_calls_are_reported() {
    assert_eq!(method_error_line(7, Some(b"{\"code\":-32601}")), "\nerror: cdp id=7: {\"code\":-32601}");
    assert_eq!(method_error_line(-2, None), "\nerror: cdp id=-2: ");
    assert_eq!(method_error_line(1, Some(&[0x66, 0xff])), "\nerror: cdp id=1: f\u{fffd}");
}

#[test]
fn replacing_text() {
    let v = |s: &str| s.chars().collect::<Vec<char>>();
    assert_eq!(replace_chars(&v("aaa"), &v("aa"), &v("b")), v("ba"));
    assert_eq!(replace_chars(&v("xyz"), &v("y"), &v("")), v("xz"));
    assert_eq!(replace_chars(&v(""), &v("y"), &v("q")), v(""));
}
