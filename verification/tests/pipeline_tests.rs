use plasma_stream::errors::XcodeError;
use plasma_stream::frame::Frame;
use plasma_stream::orchestrator::clamp_fps;
use plasma_stream::orchestrator::clamp_quality_permille;
use plasma_stream::orchestrator::may_retry_connect;
use plasma_stream::orchestrator::BackendEvent;
use plasma_stream::orchestrator::CaptureMode;
use plasma_stream::orchestrator::Orchestrator;
use plasma_stream::orchestrator::OrchestratorState;
use plasma_stream::queue::FrameQueue;
use plasma_stream::registry::Button;
use plasma_stream::registry::SessionManager;
use plasma_stream::registry::SessionRegistry;
use plasma_stream::registry::StreamSession;
use plasma_stream::registry::TouchType;
use plasma_stream::simulators::InstallAndLaunchRequest;
use plasma_stream::simulators::InstallAndLaunchResponse;
use plasma_stream::simulators::SimulatorListResponse;
use plasma_stream::simulators::filter_usable_simulators;
use plasma_stream::simulators::find_default_simulator;
use plasma_stream::simulators::sort_simulators;
use plasma_stream::simulators::Simulator;
use plasma_stream::window::select_window_target;
use plasma_stream::window::WindowInfo;

fn frame_of(value: u8) -> Frame {
    Frame::new(1, 1, vec![value, value, value, 255]).expect("1x1 frame")
}

#[test]
fn queue_keeps_exactly_the_most_recent_frame() {
    let mut q = FrameQueue::new();
    assert!(!q.is_occupied());
    assert!(q.take().is_none());

    // A burst of publishes, faster than any consumer: none of them can block
    // or fail, and exactly the most recent frame stays retrievable.
    for v in 0..50u8 {
        q.publish(frame_of(v));
    }
    let got = q.take().expect("one frame retained");
    assert_eq!(got.pixels[0], 49);
    assert!(q.take().is_none());
}

#[test]
fn fallback_commits_to_the_second_backend_after_the_first_fails() {
    let mut orch = Orchestrator::new();
    assert_eq!(orch.state, OrchestratorState::Trying { backend: 0 });
    assert_eq!(orch.mode, CaptureMode::Unstarted);

    // Backend 0 fails; a stale duplicate failure from it must be ignored.
    orch.on_event(BackendEvent::Failed { backend: 0 });
    assert_eq!(orch.state, OrchestratorState::Trying { backend: 1 });
    orch.on_event(BackendEvent::Failed { backend: 0 });
    assert_eq!(orch.state, OrchestratorState::Trying { backend: 1 });

    // Backend 1 produces its first frame: committed.
    orch.on_event(BackendEvent::Ready { backend: 1 });
    assert_eq!(orch.state, OrchestratorState::Active { backend: 1 });
    assert_eq!(orch.mode, CaptureMode::ExternalStreamTool);
    assert_eq!(orch.mode.label(), "stream-tool");

    // Nothing backend 0 reports later can win it back.
    orch.on_event(BackendEvent::Ready { backend: 0 });
    assert_eq!(orch.state, OrchestratorState::Active { backend: 1 });
    orch.on_event(BackendEvent::Failed { backend: 0 });
    assert_eq!(orch.state, OrchestratorState::Active { backend: 1 });
    assert_eq!(orch.mode, CaptureMode::ExternalStreamTool);
}

#[test]
fn exhaustion_is_only_reached_past_the_polling_floor() {
    let mut orch = Orchestrator::new();
    for b in 0..4usize {
        orch.on_event(BackendEvent::Failed { backend: b });
    }
    assert_eq!(orch.state, OrchestratorState::Exhausted);
    assert!(orch.is_exhausted());
    assert_eq!(orch.mode, CaptureMode::Unstarted);
}

#[test]
fn active_polling_backends_are_the_floor() {
    let mut orch = Orchestrator::new();
    orch.on_event(BackendEvent::Failed { backend: 0 });
    orch.on_event(BackendEvent::Failed { backend: 1 });
    orch.on_event(BackendEvent::Ready { backend: 2 });
    assert_eq!(orch.state, OrchestratorState::Active { backend: 2 });
    assert_eq!(orch.mode, CaptureMode::WindowCapture);
    // A window-capture hiccup is not terminal.
    orch.on_event(BackendEvent::Failed { backend: 2 });
    assert_eq!(orch.state, OrchestratorState::Active { backend: 2 });
}

fn session(identity: &str, url: &str, pid: u64) -> StreamSession {
    StreamSession {
        identity: identity.to_string(),
        stream_url: url.to_string(),
        process_id: pid,
    }
}

#[test]
fn racing_creators_retain_exactly_one_session() {
    let mut registry = SessionRegistry::new();

    // Two callers both miss the cache for "X" and both build a session.
    assert!(registry.lookup(&"X".to_string()).is_none());
    let first = session("X", "http://127.0.0.1:4000/x", 100);
    let second = session("X", "http://127.0.0.1:4001/x", 101);

    let (url1, torn1) = registry.get_or_create(first);
    assert_eq!(url1, "http://127.0.0.1:4000/x");
    assert!(torn1.is_none());

    // The loser's session comes back and must be torn down, not leaked.
    let (url2, torn2) = registry.get_or_create(second);
    assert_eq!(url2, "http://127.0.0.1:4000/x");
    let orphan = torn2.expect("the race loser is handed back");
    assert_eq!(orphan.process_id, 101);

    // Exactly one live backing process for "X".
    assert_eq!(
        registry.lookup(&"X".to_string()).as_deref(),
        Some("http://127.0.0.1:4000/x")
    );

    // Another identity is independent; teardown removes only its entry.
    let (_, torn3) = registry.get_or_create(session("Y", "http://127.0.0.1:4002/y", 102));
    assert!(torn3.is_none());
    let removed = registry.remove(&"X".to_string()).expect("X was live");
    assert_eq!(removed.process_id, 100);
    assert!(registry.lookup(&"X".to_string()).is_none());
    assert!(registry.lookup(&"Y".to_string()).is_some());
}

#[test]
fn session_manager_tracks_one_session() {
    let mut mgr = SessionManager::new();
    assert!(mgr.current_session().is_none());
    assert!(mgr.stream_url().is_none());

    let url = mgr
        .start_session("UDID-1".to_string(), "/tmp/app".to_string(), 390, 844)
        .expect("starting succeeds");
    assert_eq!(url, "http://localhost:8080/stream.mjpeg");
    let info = mgr.current_session().expect("session is live");
    assert_eq!(info.udid, "UDID-1");
    assert_eq!(info.width, 390);
    assert_eq!(info.height, 844);
    assert_eq!(mgr.stream_url().as_deref(), Some("http://localhost:8080/stream.mjpeg"));

    mgr.stop_session().expect("stopping succeeds");
    assert!(mgr.current_session().is_none());
    assert!(mgr.stream_url().is_none());
}

#[test]
fn clamps_bound_client_inputs() {
    assert_eq!(clamp_fps(Some(30), None), 30);
    assert_eq!(clamp_fps(Some(240), None), 60);
    assert_eq!(clamp_fps(None, Some(24)), 24);
    assert_eq!(clamp_fps(None, None), 60);
    assert_eq!(clamp_quality_permille(Some(50)), 100);
    assert_eq!(clamp_quality_permille(Some(2000)), 1000);
    assert_eq!(clamp_quality_permille(Some(700)), 700);
    assert_eq!(clamp_quality_permille(None), 700);
    assert!(may_retry_connect(9));
    assert!(!may_retry_connect(10));
}

fn window(id: u64, owner: &str, layer: i64, name: &str, w: u64, h: u64) -> WindowInfo {
    WindowInfo {
        window_id: id,
        owner: owner.to_string(),
        layer,
        name: name.to_string(),
        width: w,
        height: h,
    }
}

#[test]
fn window_selection_takes_the_largest_simulator_window() {
    let windows = vec![
        window(1, "Dock", 0, "Dock", 3000, 40),
        window(2, "Simulator", 20, "menu", 500, 500),
        window(3, "Simulator", 0, "", 9, 9),
        window(4, "Simulator", 0, "iPhone 16", 400, 800),
        window(5, "Simulator", 0, "iPhone 16 Pro", 450, 900),
        window(6, "Simulator", 0, "", 0, 0),
    ];
    let target = select_window_target(&windows).expect("a simulator window exists");
    assert_eq!(windows[target].window_id, 5);

    let none = vec![window(1, "Terminal", 0, "shell", 800, 600)];
    assert!(select_window_target(&none).is_none());
}

fn simulator(udid: &str, name: &str, state: &str) -> Simulator {
    Simulator {
        udid: udid.to_string(),
        name: name.to_string(),
        runtime: "iOS 18.0".to_string(),
        state: state.to_string(),
        is_available: true,
    }
}

#[test]
fn default_simulator_prefers_recent_phones() {
    let sims = vec![
        simulator("a", "iPad Air", "Shutdown"),
        simulator("b", "iPhone 14", "Shutdown"),
        simulator("c", "iPhone 16 Pro", "Shutdown"),
    ];
    let chosen = find_default_simulator(&sims).expect("list is non-empty");
    assert_eq!(chosen.udid, "c");

    let pads = vec![simulator("a", "iPad Air", "Shutdown")];
    assert_eq!(find_default_simulator(&pads).expect("non-empty").udid, "a");

    let err = find_default_simulator(&Vec::new()).unwrap_err();
    assert!(matches!(err, XcodeError::SimulatorError(_)));
}

#[test]
fn listing_order_puts_booted_devices_first_then_names() {
    let sims = vec![
        simulator("a", "iPhone 15", "Shutdown"),
        simulator("b", "iPad Air", "Booted"),
        simulator("c", "iPhone 14", "Shutdown"),
        simulator("d", "iPhone 16", "Booted"),
    ];
    let sorted = sort_simulators(&sims);
    let order: Vec<&str> = sorted.iter().map(|s| s.udid.as_str()).collect();
    assert_eq!(order, vec!["b", "d", "c", "a"]);
}

#[test]
fn session_side_channel_types_are_plain_data() {
    assert_ne!(TouchType::Down, TouchType::Up);
    assert_eq!(Button::Home, Button::Home);
    let request = InstallAndLaunchRequest {
        udid: "UDID-1".to_string(),
        app_path: "/tmp/MyApp.app".to_string(),
        bundle_id: None,
    };
    let response = InstallAndLaunchResponse {
        success: true,
        message: format!("installed {}", request.app_path),
    };
    assert!(response.success);
    let listing = SimulatorListResponse {
        simulators: vec![simulator("a", "iPhone 16", "Booted")],
    };
    assert_eq!(listing.simulators.len(), 1);
}

#[test]
fn unusable_devices_are_filtered_out() {
    let sims = vec![
        simulator("a", "iPhone 16", "Booted"),
        simulator("", "iPhone 15", "Shutdown"),
        simulator("c", "iPhone 14", "Unavailable"),
        simulator("d", "iPad", "Shutdown"),
    ];
    let usable = filter_usable_simulators(sims);
    assert_eq!(usable.len(), 2);
    assert_eq!(usable[0].udid, "a");
    assert_eq!(usable[1].udid, "d");
}
