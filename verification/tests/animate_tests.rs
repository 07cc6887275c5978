use mandelbrot::animate::{
    advance, key_command, mouse_event_kind, on_mouse, pointer_offset, return_home, Animate, KeyCommand,
    MandelbrotState, MouseEventKind,
};

#[derive(Clone, Copy, Debug, PartialEq)]
struct Pos {
    x: f64,
    y: f64,
    zoom: f64,
}

const HOME: Pos = Pos { x: 0.5, y: 0.0, zoom: 150.0 };

fn stopped_at(p: Pos, time: f64) -> MandelbrotState<f64, Pos> {
    MandelbrotState { position: p, animate: Animate::Stopped, time }
}

#[test]
fn mouse_kinds_by_name() {
    assert_eq!(mouse_event_kind("mousedown"), MouseEventKind::Down);
    assert_eq!(mouse_event_kind("mouseup"), MouseEventKind::Up);
    assert_eq!(mouse_event_kind("mousemove"), MouseEventKind::Move);
    assert_eq!(mouse_event_kind("click"), MouseEventKind::Other);
    assert_eq!(mouse_event_kind("mousedow"), MouseEventKind::Other);
}

#[test]
fn key_commands_by_name() {
    assert_eq!(key_command(" "), KeyCommand::ReturnHome);
    assert_eq!(key_command("f"), KeyCommand::ToggleFullscreen);
    assert_eq!(key_command("F"), KeyCommand::Ignore);
    assert_eq!(key_command("Enter"), KeyCommand::Ignore);
}

#[test]
fn main_button_zooms_in_other_zooms_out() {
    let s = stopped_at(HOME, 3.0);
    let n = on_mouse(s, MouseEventKind::Down, 0, 1.5, -2.0);
    assert!(matches!(n.animate, Animate::ZoomTowards(x, y) if x == 1.5 && y == -2.0));
    assert_eq!(n.position, HOME);
    assert_eq!(n.time, 3.0);
    let n = on_mouse(s, MouseEventKind::Down, 2, 1.5, -2.0);
    assert!(matches!(n.animate, Animate::ZoomOut(x, y) if x == 1.5 && y == -2.0));
}

#[test]
fn release_stops_and_move_retargets() {
    let s = stopped_at(HOME, 0.0);
    let zooming = on_mouse(s, MouseEventKind::Down, 0, 1.0, 1.0);
    let moved = on_mouse(zooming, MouseEventKind::Move, 0, 3.0, 4.0);
    assert!(matches!(moved.animate, Animate::ZoomTowards(x, y) if x == 3.0 && y == 4.0));
    let released = on_mouse(moved, MouseEventKind::Up, 0, 9.0, 9.0);
    assert!(matches!(released.animate, Animate::Stopped));
    let still = on_mouse(released, MouseEventKind::Move, 0, 5.0, 5.0);
    assert!(matches!(still.animate, Animate::Stopped));
    assert_eq!(still.position, HOME);
}

#[test]
fn mouse_move_does_not_interrupt_journey() {
    let away = Pos { x: -1.0, y: 0.25, zoom: 1000.0 };
    let travelling = return_home(stopped_at(away, 10.0), HOME);
    let after = on_mouse(travelling, MouseEventKind::Move, 0, 7.0, 7.0);
    assert!(matches!(after.animate, Animate::Move { t0, p0, p1 } if t0 == 10.0 && p0 == away && p1 == HOME));
}

#[test]
fn journey_goes_home_and_stops() {
    let away = Pos { x: -1.0, y: 0.25, zoom: 1000.0 };
    let s = return_home(stopped_at(away, 10.0), HOME);
    assert_eq!(s.position, away);
    let midway = Pos { x: 0.0, y: 0.1, zoom: 500.0 };
    let s = advance(s, 20.0, Some(midway));
    assert_eq!(s.position, midway);
    assert_eq!(s.time, 20.0);
    assert!(matches!(s.animate, Animate::Move { .. }));
    let s = advance(s, 30.0, None);
    assert_eq!(s.position, HOME);
    assert_eq!(s.time, 30.0);
    assert!(matches!(s.animate, Animate::Stopped));
}

#[test]
fn frame_while_stopped_only_updates_time() {
    let s = advance(stopped_at(HOME, 1.0), 2.0, Some(Pos { x: 9.0, y: 9.0, zoom: 9.0 }));
    assert_eq!(s.position, HOME);
    assert_eq!(s.time, 2.0);
}

#[test]
fn frame_while_zooming_takes_stepped_position() {
    let s = on_mouse(stopped_at(HOME, 0.0), MouseEventKind::Down, 0, 1.0, 1.0);
    let p = Pos { x: 0.48, y: -0.02, zoom: 153.0 };
    let s = advance(s, 1.0, Some(p));
    assert_eq!(s.position, p);
    assert!(matches!(s.animate, Animate::ZoomTowards(..)));
}

#[test]
fn pointer_offset_from_centre_with_y_up() {
    assert_eq!(pointer_offset(400, 300, 800, 600), (0, 0));
    assert_eq!(pointer_offset(0, 0, 800, 600), (-400, 300));
    assert_eq!(pointer_offset(10, 20, 5, 7), (8, -17));
    // integer halves round towards zero
    assert_eq!(pointer_offset(0, 0, -5, -5), (2, -2));
}
