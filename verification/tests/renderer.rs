use havi_core::renderer::load::advances_on_load_end;
use havi_core::cef::cdp::Cdp;
use havi_core::renderer::capture::{advance_virtual_time, draw_stego, frame_timeout_message, pause_virtual_time, tick_iframe, State, MAX_INVALIDATES};
use havi_core::renderer::flags::{deterministic_flags, Platform};
use havi_core::renderer::host::{build_host_html, decode_stego, file_url, host_page_url, normalize_source, STEGO_BITS};
use havi_core::renderer::load::{advance_phase, load_timeout, load_timeout_message, PhaseAction, TimeoutAction};
use havi_core::renderer::paint::{frame_sent, on_paint, stall_message, FrameOutcome, PaintAction};

fn frame_with_stamp(width: usize, height: usize, ts: u32) -> Vec<u8> {
    let mut buf = vec![0u8; width * height * 4];
    let row = (height - 1) * width * 4;
    for i in 0..STEGO_BITS as usize {
        let bit = (ts >> (31 - i)) & 1;
        buf[row + i * 4] = if bit == 1 { 255 } else { 0 };
    }
    buf
}

#[test]
fn stego_roundtrip() {
    let buf = frame_with_stamp(40, 3, 0xDEAD_BEEF);
    assert_eq!(decode_stego(&buf, 40, 3), Some(0xDEAD_BEEF));
    let buf = frame_with_stamp(32, 2, 33);
    assert_eq!(decode_stego(&buf, 32, 2), Some(33));
}

#[test]
fn stego_needs_room() {
    let buf = vec![0u8; 4096];
    assert_eq!(decode_stego(&buf, 31, 10), None);
    assert_eq!(decode_stego(&buf, 32, 1), None);
    assert_eq!(decode_stego(&buf, -1, 10), None);
    assert_eq!(decode_stego(&buf, 32, -5), None);
}

#[test]
fn stego_threshold_is_above_half() {
    let mut buf = vec![0u8; 32 * 2 * 4];
    buf[32 * 4] = 128;
    buf[32 * 4 + 31 * 4] = 127;
    assert_eq!(decode_stego(&buf, 32, 2), Some(0x8000_0000));
}

#[test]
fn cdp_calls_are_numbered() {
    let mut cdp: Cdp<u8> = Cdp::new();
    assert_eq!(pause_virtual_time(&mut cdp), r#"{"id":1,"method":"Emulation.setVirtualTimePolicy","params":{"policy":"pause"}}"#);
    assert_eq!(
        advance_virtual_time(&mut cdp, 33),
        r#"{"id":2,"method":"Emulation.setVirtualTimePolicy","params":{"policy":"advance","budget":33,"maxVirtualTimeTaskStarvationCount":1}}"#
    );
    assert_eq!(
        draw_stego(&mut cdp, 66),
        r#"{"id":3,"method":"Runtime.evaluate","params":{"expression":"window.__havi_step(66)","returnByValue":true}}"#
    );
    assert_eq!(
        tick_iframe(100),
        "(function(){if(window.__havi_tick)window.__havi_tick.process(100);if(window.__havi_advance_videos)window.__havi_advance_videos(100);})()"
    );
}

#[test]
fn cdp_handlers_by_method() {
    let mut cdp: Cdp<u8> = Cdp::new();
    cdp.on_event("A", 1);
    cdp.on_event("B", 2);
    cdp.on_event("A", 3);
    let hs: Vec<u8> = cdp.handlers_for("A").into_iter().copied().collect();
    assert_eq!(hs, vec![1, 3]);
    assert!(cdp.handlers_for("C").is_empty());
}

fn running(total: u32) -> State {
    let mut s = State::new(16, 16, total);
    assert_eq!(s.step(33), Some(0));
    s.budget_expired();
    s
}

#[test]
fn paint_gate_needs_budget_and_stamp() {
    let mut s = State::new(16, 16, 2);
    s.step(33);
    assert!(matches!(on_paint(&mut s, Some(33)), PaintAction::Ignore));
    s.budget_expired();
    assert!(matches!(on_paint(&mut s, Some(32)), PaintAction::Invalidate));
    assert_eq!(s.stuck_invalidates, 1);
    assert!(matches!(on_paint(&mut s, Some(33)), PaintAction::Frame { index: 0, last: false }));
    assert!(matches!(frame_sent(&mut s, true), FrameOutcome::Next));
    assert_eq!(s.next_frame, 1);
    assert_eq!(s.step(66), Some(1));
    s.budget_expired();
    assert!(matches!(on_paint(&mut s, Some(66)), PaintAction::Frame { index: 1, last: true }));
    assert!(matches!(frame_sent(&mut s, true), FrameOutcome::Finished));
    assert!(s.done);
    assert!(matches!(on_paint(&mut s, Some(66)), PaintAction::Ignore));
    assert_eq!(s.step(99), None);
}

#[test]
fn stall_after_too_many_mismatches() {
    let mut s = running(10);
    for _ in 0..MAX_INVALIDATES {
        assert!(matches!(on_paint(&mut s, None), PaintAction::Invalidate));
    }
    assert!(matches!(on_paint(&mut s, None), PaintAction::Stalled { frame: 0, ms: 33 }));
    assert!(s.done);
    assert_eq!(stall_message(0, 33), "compositor stalled at frame 0 ms=33 \u{2014} aborting");
}

#[test]
fn failed_send_aborts() {
    let mut s = running(10);
    assert!(matches!(on_paint(&mut s, Some(33)), PaintAction::Frame { index: 0, last: false }));
    assert!(matches!(frame_sent(&mut s, false), FrameOutcome::Abort));
    assert!(s.done);
}

#[test]
fn watchdog_only_for_current_frame() {
    let mut s = running(10);
    assert_eq!(s.watchdog_fired(0), Some((0, 33)));
    assert!(s.done);
    let mut t = running(10);
    t.next_frame = 3;
    assert_eq!(t.watchdog_fired(2), None);
    assert!(!t.done);
    assert_eq!(frame_timeout_message(4, 133), "frame 4 timeout: no paint in 5000ms (ms=133)");
    assert_eq!(State::new(1920, 1080, 1).view_rect(), (0, 0, 1920, 1081));
}

#[test]
fn load_phases() {
    let mut phase = 0u8;
    assert!(matches!(advance_phase(&mut phase, false), PhaseAction::ScheduleReload));
    assert_eq!(phase, 1);
    assert!(matches!(advance_phase(&mut phase, false), PhaseAction::Nothing));
    assert_eq!(phase, 1);
    assert!(matches!(advance_phase(&mut phase, true), PhaseAction::Prime));
    assert_eq!(phase, 2);
    assert!(matches!(advance_phase(&mut phase, true), PhaseAction::Nothing));
    assert_eq!(phase, 2);
    assert!(matches!(load_timeout(2, false), TimeoutAction::Ignore));
    assert!(matches!(load_timeout(0, false), TimeoutAction::Fail));
    assert!(matches!(load_timeout(1, true), TimeoutAction::ProceedTolerant));
    assert_eq!(load_timeout_message(false), "load timeout after 15000ms (pass --tolerant to proceed anyway)");
    assert_eq!(load_timeout_message(true), "load timeout after 15000ms \u{2014} proceeding tolerant");
}

#[test]
fn flags_per_platform() {
    let mac = deterministic_flags(Platform::MacOs);
    assert_eq!(mac.len(), 34);
    assert_eq!(mac[0], "use-mock-keychain");
    assert_eq!(mac[33], "use-angle=metal");
    let linux = deterministic_flags(Platform::Linux);
    assert_eq!(&linux[33..], &["use-angle=vulkan", "disable-vulkan-surface", "enable-features=Vulkan"]);
    assert_eq!(deterministic_flags(Platform::Other).len(), 33);
}

#[test]
fn sources_and_host_page() {
    assert_eq!(normalize_source("file:a.html"), Some("file:///a.html".to_string()));
    assert_eq!(normalize_source("file:///tmp/a.html"), Some("file:///tmp/a.html".to_string()));
    assert_eq!(normalize_source("https://example.com"), Some("https://example.com".to_string()));
    assert_eq!(normalize_source("data:text/html,hi"), Some("data:text/html,hi".to_string()));
    assert_eq!(normalize_source("examples/a.html"), None);
    assert_eq!(file_url("/abs/a.html"), "file:///abs/a.html");
    assert_eq!(host_page_url("/tmp/h/host.html"), "file:///tmp/h/host.html");
    let html = build_host_html("file:///a.html", 640, 480, "/*shim*/");
    assert!(html.starts_with("<!DOCTYPE html>\n<html>"));
    assert!(html.contains("html, body { width: 640px; height: 481px;"));
    assert!(html.contains("width: 640px; height: 480px;"));
    assert!(html.contains("#stego {\n      position: absolute; top: 480px; left: 0;"));
    assert!(html.contains(r#"<iframe id="target" name="havi_target" src="file:///a.html"></iframe>"#));
    assert!(html.contains(r#"<canvas id="stego" width="640" height="1"></canvas>"#));
    assert!(html.ends_with("<script>/*shim*/</script>\n</body>\n</html>\n"));
}

#[test]
fn load_end_advances_only_the_user_frame() {
    assert!(advances_on_load_end(false, false));
    assert!(!advances_on_load_end(false, true));
    assert!(!advances_on_load_end(true, false));
    assert!(!advances_on_load_end(true, true));
}

#[test]
fn normalizing_twice_changes_nothing() {
    for s in ["file:a.html", "file:////x/y.html", "https://example.com/", "data:text/html,hi", "file:///tmp/a.html"] {
        let once = normalize_source(s).expect("a URL");
        assert_eq!(normalize_source(&once), Some(once.clone()));
    }
    let u = normalize_source("file:///tmp/a.html").unwrap();
    assert!(u.starts_with("file:///") && !u[8..].starts_with('/'));
    assert_eq!(normalize_source(&file_url("/abs/p.html")), Some(file_url("/abs/p.html")));
}

#[test]
fn flags_are_distinct_and_split_well() {
    for p in [Platform::MacOs, Platform::Windows, Platform::Linux, Platform::Other] {
        let f = deterministic_flags(p);
        let mut seen = std::collections::HashSet::new();
        for s in &f {
            assert!(seen.insert(s.clone()));
            assert!(!s.is_empty() && !s.starts_with('=') && !s.ends_with('='));
        }
        let angles = f.iter().filter(|s| s.starts_with("use-angle=")).count();
        assert!(angles <= 1);
    }
    assert_eq!(deterministic_flags(Platform::Linux).iter().filter(|s| s.starts_with("use-angle=")).count(), 1);
}
