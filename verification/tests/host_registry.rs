use havi_core::api::RenderOpts;
use havi_core::common::ipc::Evt;
use havi_core::host::render::{CaptureState, Host, Render, Submitted};

fn fake_render(id: u64) -> Render {
    Render {
        id,
        width: 16,
        height: 16,
        total_frames: 1,
        out: "o.mp4".into(),
        tolerant: false,
        phase: 0,
        capture: CaptureState { next_frame: 0, requested_ms: 0, budget_done: false, stuck_invalidates: 0 },
        done: false,
        errored: false,
    }
}

fn opts(source: &str) -> RenderOpts {
    RenderOpts {
        source: source.into(),
        out: None,
        width: None,
        height: None,
        fps: None,
        duration: None,
        tolerant: None,
        proxy: None,
    }
}

#[test]
fn route_by_browser_id() {
    let mut host = Host::new(4);
    host.insert(fake_render(1));
    host.insert(fake_render(2));
    host.bind_browser(101, 1);
    host.bind_browser(102, 2);
    assert_eq!(host.by_browser(101).unwrap().id, 1);
    assert_eq!(host.by_browser(102).unwrap().id, 2);
    assert!(host.by_browser(999).is_none());
}

#[test]
fn remove_clears_browser_binding() {
    let mut host = Host::new(4);
    host.insert(fake_render(1));
    host.bind_browser(101, 1);
    assert_eq!(host.active_count(), 1);
    host.remove(1);
    assert_eq!(host.active_count(), 0);
    assert!(host.by_browser(101).is_none());
}

#[test]
fn zero_capacity_means_one_slot() {
    let mut host = Host::new(0);
    assert!(matches!(host.submit(1, opts("a.html")), Submitted::Start(1, _)));
    host.insert(fake_render(1));
    assert!(matches!(host.submit(2, opts("b.html")), Submitted::Queued));
}

#[test]
fn submit_queues_at_capacity_and_finish_drains_in_order() {
    let mut host = Host::new(1);
    host.insert(fake_render(1));
    assert!(matches!(host.submit(2, opts("b.html")), Submitted::Queued));
    assert!(matches!(host.submit(3, opts("c.html")), Submitted::Queued));
    let settled = host.finish(1, true, 42).expect("render 1 is live");
    match settled.event {
        Some(Evt::Done { id, out, frames, elapsed_ms }) => {
            assert_eq!(id, 1);
            assert_eq!(out, "o.mp4");
            assert_eq!(frames, 0);
            assert_eq!(elapsed_ms, 42);
        }
        _ => panic!("expected done"),
    }
    let (next_id, next_opts) = settled.next.expect("queued request");
    assert_eq!(next_id, 2);
    assert_eq!(next_opts.source, "b.html");
    assert!(!settled.quit);
}

#[test]
fn finish_with_failed_encoder_reports_error() {
    let mut host = Host::new(2);
    host.insert(fake_render(5));
    let settled = host.finish(5, false, 1).unwrap();
    match settled.event {
        Some(Evt::Error { id, message }) => {
            assert_eq!(id, 5);
            assert_eq!(message, "ffmpeg encoder failed");
        }
        _ => panic!("expected error"),
    }
}

#[test]
fn cancel_acknowledges_once() {
    let mut host = Host::new(2);
    host.insert(fake_render(7));
    host.bind_browser(70, 7);
    host.set_single_shot(7);
    let settled = host.cancel(7).expect("live");
    match settled.event {
        Some(Evt::Error { id, message }) => {
            assert_eq!(id, 7);
            assert_eq!(message, "cancelled");
        }
        _ => panic!("expected cancelled"),
    }
    assert!(settled.quit);
    assert!(host.by_browser(70).is_none());
    assert!(host.finish(7, true, 0).is_none());
    assert!(host.cancel(7).is_none());
}

#[test]
fn errored_render_gets_no_second_acknowledgement() {
    let mut host = Host::new(2);
    let mut r = fake_render(9);
    r.errored = true;
    host.insert(r);
    let settled = host.finish(9, true, 0).unwrap();
    assert!(settled.event.is_none());
}

#[test]
fn dom_ready_picks_a_loading_tolerant_render() {
    let mut host = Host::new(4);
    host.insert(fake_render(1));
    let mut t = fake_render(2);
    t.tolerant = true;
    t.phase = 1;
    host.insert(t);
    let mut done = fake_render(3);
    done.tolerant = true;
    done.phase = 2;
    host.insert(done);
    assert_eq!(host.dom_ready_advance(), Some(2));
}

#[test]
fn insert_replaces_same_id_and_creating_slot() {
    let mut host = Host::new(4);
    host.insert(fake_render(1));
    let mut again = fake_render(1);
    again.width = 99;
    host.insert(again);
    assert_eq!(host.active_count(), 1);
    assert_eq!(host.by_id(1).unwrap().width, 99);
    host.set_creating(1);
    assert_eq!(host.creating().unwrap().id, 1);
    host.clear_creating();
    assert!(host.creating().is_none());
}
