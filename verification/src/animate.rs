//! The navigation state machine of the explorer: what mouse, keyboard and
//! frame events do to the view.
//!
//! The state is generic over the coordinate type `C` (a plane coordinate or
//! a timestamp) and the position type `P` (centre and zoom), so the rules
//! below hold whatever number type the caller computes positions with.

use vstd::prelude::*;
use vstd::string::StrSliceExecFns;

verus! {

/// What the view is doing between frames.
#[derive(Clone, Copy)]
pub enum Animate<C, P> {
    /// Standing still.
    Stopped,
    /// Zooming in towards the plane offset `(x, y)` from the centre.
    ZoomTowards(C, C),
    /// Zooming out, drifting away from the plane offset `(x, y)`.
    ZoomOut(C, C),
    /// Travelling from `p0` to `p1`, started at time `t0`.
    Move { t0: C, p0: P, p1: P },
}

/// The view: where it is, what it is doing, and the time of the latest frame.
#[derive(Clone, Copy)]
pub struct MandelbrotState<C, P> {
    pub position: P,
    pub animate: Animate<C, P>,
    pub time: C,
}

/// The kinds of mouse event the view reacts to.
#[derive(Clone, Copy, PartialEq, Eq, Structural, Debug)]
pub enum MouseEventKind {
    Down,
    Up,
    Move,
    Other,
}

/// What a released key asks for.
#[derive(Clone, Copy, PartialEq, Eq, Structural, Debug)]
pub enum KeyCommand {
    /// Travel back to the home position (the space bar).
    ReturnHome,
    /// Enter or leave full screen (`f`).
    ToggleFullscreen,
    /// Any other key.
    Ignore,
}

/// Whether two strings hold the same characters.
fn same_text(a: &str, b: &str) -> (same: bool)
    ensures
        same <==> a@ == b@,
{
    let n = a.unicode_len();
    if n != b.unicode_len() {
        return false;
    }
    let mut i: usize = 0;
    while i < n
        invariant
            n == a@.len(),
            n == b@.len(),
            i <= n,
            forall|k: int| 0 <= k < i ==> a@[k] == b@[k],
        decreases n - i,
    {
        if a.get_char(i) != b.get_char(i) {
            return false;
        }
        i = i + 1;
    }
    assert(a@ =~= b@);
    true
}

/// The kind of a mouse event, by its DOM type name.
pub open spec fn mouse_kind_of(name: Seq<char>) -> MouseEventKind {
    if name == "mousedown"@ {
        MouseEventKind::Down
    } else if name == "mouseup"@ {
        MouseEventKind::Up
    } else if name == "mousemove"@ {
        MouseEventKind::Move
    } else {
        MouseEventKind::Other
    }
}

/// Classifies a mouse event by its DOM type name.
pub fn mouse_event_kind(name: &str) -> (kind: MouseEventKind)
    ensures
        kind == mouse_kind_of(name@),
        kind == MouseEventKind::Down <==> name@ == "mousedown"@,
        kind == MouseEventKind::Up <==> name@ == "mouseup"@,
        kind == MouseEventKind::Move <==> name@ == "mousemove"@,
{
    proof {
        reveal_strlit("mousedown");
        reveal_strlit("mouseup");
        reveal_strlit("mousemove");
        assert("mousedown"@.len() != "mouseup"@.len());
        assert("mousemove"@.len() != "mouseup"@.len());
        assert("mousedown"@[5] != "mousemove"@[5]);
    }
    if same_text(name, "mousedown") {
        MouseEventKind::Down
    } else if same_text(name, "mouseup") {
        MouseEventKind::Up
    } else if same_text(name, "mousemove") {
        MouseEventKind::Move
    } else {
        MouseEventKind::Other
    }
}

/// The command of a released key, by its DOM key name.
pub open spec fn key_command_of(key: Seq<char>) -> KeyCommand {
    if key == " "@ {
        KeyCommand::ReturnHome
    } else if key == "f"@ {
        KeyCommand::ToggleFullscreen
    } else {
        KeyCommand::Ignore
    }
}

/// Classifies a released key by its DOM key name.
pub fn key_command(key: &str) -> (command: KeyCommand)
    ensures
        command == key_command_of(key@),
        command == KeyCommand::ReturnHome <==> key@ == " "@,
        command == KeyCommand::ToggleFullscreen <==> key@ == "f"@,
{
    proof {
        reveal_strlit(" ");
        reveal_strlit("f");
        assert(" "@[0] != "f"@[0]);
    }
    if same_text(key, " ") {
        KeyCommand::ReturnHome
    } else if same_text(key, "f") {
        KeyCommand::ToggleFullscreen
    } else {
        KeyCommand::Ignore
    }
}

/// Half of `n`, rounded towards zero as integer division does.
pub open spec fn half_toward_zero(n: int) -> int {
    if n >= 0 {
        n / 2
    } else {
        -((-n) / 2)
    }
}

/// The pointer's offset in pixels from the centre of the canvas, with `y`
/// growing upwards: `(offset_x - width / 2, height / 2 - offset_y)`.
pub open spec fn pointer_offset_spec(offset_x: int, offset_y: int, width: int, height: int) -> (
    int,
    int,
) {
    (offset_x - half_toward_zero(width), half_toward_zero(height) - offset_y)
}

/// The pointer's offset from the centre of a `client_width` x
/// `client_height` canvas (see `pointer_offset_spec`).
pub fn pointer_offset(offset_x: i32, offset_y: i32, client_width: i32, client_height: i32) -> (offset: (i32, i32))
    requires
        i32::MIN <= pointer_offset_spec(
            offset_x as int,
            offset_y as int,
            client_width as int,
            client_height as int,
        ).0 <= i32::MAX,
        i32::MIN <= pointer_offset_spec(
            offset_x as int,
            offset_y as int,
            client_width as int,
            client_height as int,
        ).1 <= i32::MAX,
    ensures
        (offset.0 as int, offset.1 as int) == pointer_offset_spec(
            offset_x as int,
            offset_y as int,
            client_width as int,
            client_height as int,
        ),
        client_width >= 0 ==> 0 <= client_width - 2 * (offset_x - offset.0) <= 1,
        client_width < 0 ==> -1 <= client_width - 2 * (offset_x - offset.0) <= 0,
        client_height >= 0 ==> 0 <= client_height - 2 * (offset.1 + offset_y) <= 1,
        client_height < 0 ==> -1 <= client_height - 2 * (offset.1 + offset_y) <= 0,
{
    (offset_x - client_width / 2, client_height / 2 - offset_y)
}

/// The view after a mouse event whose pointer lies at the plane offset
/// `(x, y)` from the centre: pressing the main button (0) zooms in towards the
/// pointer, pressing any other zooms out from it, releasing stops, and moving
/// retargets a zoom in progress. Position and time never change.
pub open spec fn mouse_transition<C, P>(
    state: MandelbrotState<C, P>,
    kind: MouseEventKind,
    button: i16,
    x: C,
    y: C,
) -> MandelbrotState<C, P> {
    MandelbrotState {
        position: state.position,
        animate: match kind {
            MouseEventKind::Down => if button == 0 {
                Animate::ZoomTowards(x, y)
            } else {
                Animate::ZoomOut(x, y)
            },
            MouseEventKind::Up => Animate::Stopped,
            MouseEventKind::Move => match state.animate {
                Animate::ZoomTowards(_, _) => Animate::ZoomTowards(x, y),
                Animate::ZoomOut(_, _) => Animate::ZoomOut(x, y),
                other => other,
            },
            MouseEventKind::Other => state.animate,
        },
        time: state.time,
    }
}

/// Applies a mouse event to the view (see `mouse_transition`).
pub fn on_mouse<C: Copy, P: Copy>(
    state: MandelbrotState<C, P>,
    kind: MouseEventKind,
    button: i16,
    x: C,
    y: C,
) -> (next: MandelbrotState<C, P>)
    ensures
        next == mouse_transition(state, kind, button, x, y),
        next.position == state.position,
        next.time == state.time,
        kind == MouseEventKind::Down && button == 0 ==> next.animate == Animate::<C, P>::ZoomTowards(x, y),
        kind == MouseEventKind::Down && button != 0 ==> next.animate == Animate::<C, P>::ZoomOut(x, y),
        kind == MouseEventKind::Up ==> next.animate is Stopped,
        kind == MouseEventKind::Move && state.animate is ZoomTowards ==> next.animate
            == Animate::<C, P>::ZoomTowards(x, y),
        kind == MouseEventKind::Move && state.animate is ZoomOut ==> next.animate
            == Animate::<C, P>::ZoomOut(x, y),
        kind == MouseEventKind::Move && (state.animate is Stopped || state.animate is Move)
            ==> next == state,
        kind == MouseEventKind::Other ==> next == state,
{
    match kind {
        MouseEventKind::Down => {
            let animate = if button == 0 {
                Animate::ZoomTowards(x, y)
            } else {
                Animate::ZoomOut(x, y)
            };
            MandelbrotState { position: state.position, animate, time: state.time }
        },
        MouseEventKind::Up => MandelbrotState {
            position: state.position,
            animate: Animate::Stopped,
            time: state.time,
        },
        MouseEventKind::Move => match state.animate {
            Animate::Stopped => state,
            Animate::Move { .. } => state,
            Animate::ZoomTowards(_, _) => MandelbrotState {
                position: state.position,
                animate: Animate::ZoomTowards(x, y),
                time: state.time,
            },
            Animate::ZoomOut(_, _) => MandelbrotState {
                position: state.position,
                animate: Animate::ZoomOut(x, y),
                time: state.time,
            },
        },
        MouseEventKind::Other => state,
    }
}

/// Starts the journey from the current position to `home`, timed from the
/// latest frame.
pub fn return_home<C: Copy, P: Copy>(state: MandelbrotState<C, P>, home: P) -> (next:
    MandelbrotState<C, P>)
    ensures
        next == (MandelbrotState {
            position: state.position,
            animate: Animate::Move { t0: state.time, p0: state.position, p1: home },
            time: state.time,
        }),
{
    let p0 = state.position;
    let t0 = state.time;
    MandelbrotState { position: p0, animate: Animate::Move { t0, p0, p1: home }, time: t0 }
}

/// The view after a frame at `timestamp`. `stepped` is the position the
/// current animation reaches at this frame, as the caller computed it: the
/// zoomed position while zooming, the interpolated one while travelling
/// (`None` once the journey's time is up). A journey whose time is up ends
/// exactly at its target and stops.
pub open spec fn frame_transition<C, P>(
    state: MandelbrotState<C, P>,
    timestamp: C,
    stepped: Option<P>,
) -> MandelbrotState<C, P> {
    match state.animate {
        Animate::Stopped => MandelbrotState { time: timestamp, ..state },
        Animate::Move { t0, p0, p1 } => match stepped {
            Some(p) => MandelbrotState { position: p, animate: state.animate, time: timestamp },
            None => MandelbrotState { position: p1, animate: Animate::Stopped, time: timestamp },
        },
        _ => match stepped {
            Some(p) => MandelbrotState { position: p, animate: state.animate, time: timestamp },
            None => MandelbrotState { time: timestamp, ..state },
        },
    }
}

/// Advances the view by one frame (see `frame_transition`).
pub fn advance<C: Copy, P: Copy>(state: MandelbrotState<C, P>, timestamp: C, stepped: Option<P>) -> (next:
    MandelbrotState<C, P>)
    ensures
        next == frame_transition(state, timestamp, stepped),
        next.time == timestamp,
        state.animate is Stopped ==> next.position == state.position && next.animate
            == state.animate,
        !(state.animate is Stopped) && stepped is Some ==> next.position == stepped->0
            && next.animate == state.animate,
        (state.animate is ZoomTowards || state.animate is ZoomOut) && stepped is None
            ==> next.position == state.position && next.animate == state.animate,
        state.animate is Move && stepped is None ==> next.position == state.animate->p1
            && next.animate is Stopped,
{
    match state.animate {
        Animate::Stopped => MandelbrotState {
            position: state.position,
            animate: state.animate,
            time: timestamp,
        },
        Animate::Move { t0: _, p0: _, p1 } => match stepped {
            Some(p) => MandelbrotState { position: p, animate: state.animate, time: timestamp },
            None => MandelbrotState { position: p1, animate: Animate::Stopped, time: timestamp },
        },
        _ => match stepped {
            Some(p) => MandelbrotState { position: p, animate: state.animate, time: timestamp },
            None => MandelbrotState {
                position: state.position,
                animate: state.animate,
                time: timestamp,
            },
        },
    }
}

/// Law: no mouse event moves the view or changes its time, and releasing the
/// button always stops it.
pub proof fn lemma_mouse_keeps_position<C, P>(
    state: MandelbrotState<C, P>,
    kind: MouseEventKind,
    button: i16,
    x: C,
    y: C,
)
    ensures
        mouse_transition(state, kind, button, x, y).position == state.position,
        mouse_transition(state, kind, button, x, y).time == state.time,
        kind == MouseEventKind::Up ==> mouse_transition(state, kind, button, x, y).animate
            is Stopped,
{
}

/// Law: pressing a button starts a zoom towards (main button) or away from
/// (any other button) the pointer, whatever the view was doing, even in the
/// middle of a journey; the position and time stay.
pub proof fn lemma_press_starts_zoom<C, P>(
    state: MandelbrotState<C, P>,
    button: i16,
    x: C,
    y: C,
)
    ensures
        mouse_transition(state, MouseEventKind::Down, button, x, y).animate == if button == 0 {
            Animate::<C, P>::ZoomTowards(x, y)
        } else {
            Animate::<C, P>::ZoomOut(x, y)
        },
        mouse_transition(state, MouseEventKind::Down, button, x, y).position == state.position,
        mouse_transition(state, MouseEventKind::Down, button, x, y).time == state.time,
{
}

/// Law: a frame that reaches a stepped position takes it and keeps the
/// animation exactly as it was (a journey keeps its start time, start and
/// target, so its progress is measured from when it began); the view's time
/// becomes the frame's timestamp.
pub proof fn lemma_frame_keeps_animation<C, P>(
    state: MandelbrotState<C, P>,
    timestamp: C,
    p: P,
)
    requires
        !(state.animate is Stopped),
    ensures
        frame_transition(state, timestamp, Some(p)).animate == state.animate,
        frame_transition(state, timestamp, Some(p)).position == p,
        frame_transition(state, timestamp, Some(p)).time == timestamp,
{
}

/// Law: a standing view stays where it is whatever position is offered; only
/// its time follows the frames.
pub proof fn lemma_stopped_view_stays<C, P>(
    state: MandelbrotState<C, P>,
    timestamp: C,
    stepped: Option<P>,
)
    requires
        state.animate is Stopped,
    ensures
        frame_transition(state, timestamp, stepped).position == state.position,
        frame_transition(state, timestamp, stepped).animate is Stopped,
        frame_transition(state, timestamp, stepped).time == timestamp,
{
}

/// Law: moving the mouse never starts an animation nor interrupts a journey;
/// it only retargets a zoom, keeping its direction.
pub proof fn lemma_mouse_move_only_retargets<C, P>(state: MandelbrotState<C, P>, button: i16, x: C, y: C)
    ensures
        ({
            let next = mouse_transition(state, MouseEventKind::Move, button, x, y);
            &&& state.animate is Stopped ==> next == state
            &&& state.animate is Move ==> next == state
            &&& state.animate is ZoomTowards ==> next.animate == Animate::<C, P>::ZoomTowards(x, y)
            &&& state.animate is ZoomOut ==> next.animate == Animate::<C, P>::ZoomOut(x, y)
        }),
{
}

/// Law: a journey back home, once its time is up, ends exactly at home and
/// stops there.
pub proof fn lemma_journey_ends_home<C, P>(state: MandelbrotState<C, P>, home: P, timestamp: C)
    ensures
        ({
            let started = MandelbrotState {
                position: state.position,
                animate: Animate::Move { t0: state.time, p0: state.position, p1: home },
                time: state.time,
            };
            let ended = frame_transition(started, timestamp, None);
            &&& ended.position == home
            &&& ended.animate is Stopped
            &&& ended.time == timestamp
        }),
{
}

} // verus!
