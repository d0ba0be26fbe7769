use brass::app::AppState;
use brass::app::Dispatch;
use brass::window::WindowEvent;

type Pos = (f64, f64);

#[test]
fn resize_reaches_surface_and_frame() {
    let mut state: AppState<Pos> = AppState::new((800.0, 600.0));
    state.evt_buf.push_back(WindowEvent::ResizeHappened { dims: (400.0, 300.0) });
    let steps = state.drain_events();
    assert_eq!(
        steps,
        vec![Dispatch { resize: Some((400.0, 300.0)), event: WindowEvent::ResizeHappened { dims: (400.0, 300.0) } }]
    );
    assert_eq!(state.frame_dims, (400.0, 300.0));
    assert!(state.evt_buf.is_empty());
}

#[test]
fn drain_keeps_order_and_last_resize() {
    let mut state: AppState<Pos> = AppState::new((1.0, 1.0));
    state.evt_buf.push_back(WindowEvent::Expose);
    state.evt_buf.push_back(WindowEvent::ResizeHappened { dims: (2.0, 3.0) });
    state.evt_buf.push_back(WindowEvent::CloseRequested);
    state.evt_buf.push_back(WindowEvent::ResizeHappened { dims: (5.0, 8.0) });
    let steps = state.drain_events();
    assert_eq!(steps.len(), 4);
    assert_eq!(steps[0], Dispatch { resize: None, event: WindowEvent::Expose });
    assert_eq!(steps[1].resize, Some((2.0, 3.0)));
    assert_eq!(steps[2], Dispatch { resize: None, event: WindowEvent::CloseRequested });
    assert_eq!(steps[3].resize, Some((5.0, 8.0)));
    assert_eq!(state.frame_dims, (5.0, 8.0));
}

#[test]
fn drain_of_empty_queue() {
    let mut state: AppState<Pos> = AppState::new((7.0, 9.0));
    assert!(state.drain_events().is_empty());
    assert_eq!(state.frame_dims, (7.0, 9.0));
}
