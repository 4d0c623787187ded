use wgpu_ui::driver::{Command, FrameDriver, KeyCode, KeyState, Phase, SurfaceError, WindowEvent};
use wgpu_ui::widgets::Size;

fn running() -> FrameDriver {
    let mut d = FrameDriver::new();
    assert_eq!(d.phase(), Phase::NotStarted);
    d.start();
    assert_eq!(d.phase(), Phase::Running);
    d
}

#[test]
fn events_before_start_are_ignored() {
    let mut d = FrameDriver::new();
    assert!(d.handle_event(WindowEvent::RedrawRequested).is_empty());
    assert_eq!(d.phase(), Phase::NotStarted);
}

#[test]
fn redraw_requests_next_frame_then_renders() {
    let mut d = running();
    assert_eq!(d.handle_event(WindowEvent::RedrawRequested), vec![Command::RequestRedraw, Command::Render]);
    assert_eq!(d.phase(), Phase::Running);
}

#[test]
fn resized_event_forwards_size() {
    let mut d = running();
    let s = Size { width: 640, height: 480 };
    assert_eq!(d.handle_event(WindowEvent::Resized(s)), vec![Command::Resize(s)]);
}

#[test]
fn close_and_escape_stop_the_loop() {
    let mut d = running();
    assert_eq!(d.handle_event(WindowEvent::CloseRequested), vec![Command::Exit]);
    assert_eq!(d.phase(), Phase::Stopped);
    let mut e = running();
    let esc = WindowEvent::KeyboardInput { state: KeyState::Pressed, key: KeyCode::Escape };
    assert_eq!(e.handle_event(esc), vec![Command::Exit]);
    assert_eq!(e.phase(), Phase::Stopped);
}

#[test]
fn other_input_is_ignored() {
    let mut d = running();
    let released = WindowEvent::KeyboardInput { state: KeyState::Released, key: KeyCode::Escape };
    let other = WindowEvent::KeyboardInput { state: KeyState::Pressed, key: KeyCode::Other };
    assert!(d.handle_event(released).is_empty());
    assert!(d.handle_event(other).is_empty());
    assert!(d.handle_event(WindowEvent::Other).is_empty());
    assert_eq!(d.phase(), Phase::Running);
}

#[test]
fn lost_surface_reconfigures_once_and_continues() {
    let mut d = running();
    assert_eq!(d.handle_render_result(Err(SurfaceError::Lost)), vec![Command::Reconfigure]);
    assert_eq!(d.phase(), Phase::Running);
    assert_eq!(d.handle_render_result(Err(SurfaceError::Outdated)), vec![Command::Reconfigure]);
    assert_eq!(d.handle_event(WindowEvent::RedrawRequested), vec![Command::RequestRedraw, Command::Render]);
}

#[test]
fn timeout_skips_frame() {
    let mut d = running();
    assert_eq!(d.handle_render_result(Err(SurfaceError::Timeout)), vec![Command::SkipFrame]);
    assert_eq!(d.phase(), Phase::Running);
    assert!(d.handle_render_result(Ok(())).is_empty());
}

#[test]
fn out_of_memory_terminates_and_stops_rendering() {
    let mut d = running();
    assert_eq!(d.handle_render_result(Err(SurfaceError::OutOfMemory)), vec![Command::Exit]);
    assert_eq!(d.phase(), Phase::Stopped);
    assert!(d.handle_event(WindowEvent::RedrawRequested).is_empty());
    assert!(d.handle_event(WindowEvent::Resized(Size { width: 10, height: 10 })).is_empty());
    assert!(d.handle_render_result(Err(SurfaceError::Lost)).is_empty());
    d.start();
    assert_eq!(d.phase(), Phase::Stopped);
}
