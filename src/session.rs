//! The session controller's decisions: the settings a session accepts, the
//! frame buffer it starts from, its phases, and what each keystroke asks for.
use vstd::prelude::*;
use crate::protocol::{CameraMovement, Command};

verus! {

/// Grey level of every byte of a fresh frame.
pub const MID_GREY: u8 = 127;

/// Why the settings of a session were refused.
#[derive(Clone, Copy, Debug, PartialEq, Eq, Structural)]
pub enum ConfigError {
    /// The width is zero or not a multiple of 64.
    BadWidth,
    /// The height is zero.
    BadHeight,
    /// No worker is expected.
    NoWorkers,
    /// The frame, or the number of workers, is too large for this machine.
    TooLarge,
}

/// What a frame of `width` by `height` pixels takes, three bytes per pixel.
pub open spec fn frame_len(width: int, height: int) -> int {
    width * height * 3
}

/// Checks the settings of a session and gives the size of its frame buffer.
pub fn check_settings(width: usize, height: usize, workers: usize) -> (r: Result<usize, ConfigError>)
    ensures
        width == 0 || width % 64 != 0 ==> r == Err::<usize, ConfigError>(ConfigError::BadWidth),
        width > 0 && width % 64 == 0 && height == 0 ==> r == Err::<usize, ConfigError>(
            ConfigError::BadHeight,
        ),
        width > 0 && width % 64 == 0 && height > 0 && workers == 0 ==> r == Err::<usize, ConfigError>(
            ConfigError::NoWorkers,
        ),
        r is Ok <==> width > 0 && width % 64 == 0 && height > 0 && workers > 0 && frame_len(
            width as int,
            height as int,
        ) <= usize::MAX && workers <= u32::MAX,
        width > 0 && width % 64 == 0 && height > 0 && workers > 0 && r is Err ==> r == Err::<
            usize,
            ConfigError,
        >(ConfigError::TooLarge),
        r is Ok ==> r->Ok_0 == frame_len(width as int, height as int),
{
    if width == 0 || width % 64 != 0 {
        return Err(ConfigError::BadWidth);
    }
    if height == 0 {
        return Err(ConfigError::BadHeight);
    }
    if workers == 0 {
        return Err(ConfigError::NoWorkers);
    }
    if workers > u32::MAX as usize {
        return Err(ConfigError::TooLarge);
    }
    match width.checked_mul(height) {
        Some(area) => match area.checked_mul(3) {
            Some(n) => Ok(n),
            None => Err(ConfigError::TooLarge),
        },
        None => {
            proof {
                assert(width * height <= width * height * 3) by (nonlinear_arith)
                    requires
                        width >= 0,
                        height >= 0,
                ;
            }
            Err(ConfigError::TooLarge)
        },
    }
}

/// A frame buffer of `len` bytes, all mid-grey.
pub fn new_frame(len: usize) -> (r: Vec<u8>)
    ensures
        r@.len() == len,
        forall|i: int| 0 <= i < len ==> #[trigger] r@[i] == MID_GREY,
{
    let mut v: Vec<u8> = Vec::with_capacity(len);
    let mut i: usize = 0;
    while i < len
        invariant
            0 <= i <= len,
            v@.len() == i,
            forall|k: int| 0 <= k < i ==> #[trigger] v@[k] == MID_GREY,
        decreases len - i,
    {
        v.push(MID_GREY);
        i = i + 1;
    }
    v
}

/// The commands that prepare a worker, in order: the frame size, then the scene.
pub fn init_commands(width: usize, height: usize, scene: &Vec<u8>) -> (r: Vec<Command>)
    ensures
        r@.len() == 2,
        r@[0] == (Command::Info { width, height }),
        r@[1] is SetScene && r@[1]->scene@ == scene@,
{
    let s = vstd::slice::slice_to_vec(scene.as_slice());
    vec![Command::Info { width, height }, Command::SetScene { scene: s }]
}

} // verus!

verus! {

/// Where a session stands.
#[derive(Clone, Copy, Debug, PartialEq, Eq, Structural)]
pub enum Phase {
    /// Waiting for the first worker.
    Listening,
    /// Some workers logged in, others are awaited.
    Connecting,
    /// Workers are being told the frame size and the scene.
    Initializing,
    /// Waiting for the next request.
    Idle,
    /// Workers are rendering their bands.
    Rendering,
    /// The finished frame is being written out.
    Snapshotting,
    /// Workers are moving the camera.
    Moving,
    /// The session is over.
    Terminated,
}

/// What happens to a session.
#[derive(Clone, Copy, Debug, PartialEq, Eq, Structural)]
pub enum Event {
    /// A worker logged in, and more are awaited.
    Accepted,
    /// The last expected worker logged in.
    RosterComplete,
    InitRequested,
    /// Every worker acknowledged the frame size and the scene.
    WorkersInitialized,
    RenderRequested,
    /// Every render task returned.
    RenderJoined,
    /// The finished frame was written out.
    SnapshotWritten,
    /// The finished frame was shown in the window, with nothing written out.
    FrameShown,
    CameraRequested,
    /// Every worker acknowledged the camera move.
    CameraAcknowledged,
    /// A protocol or I/O error that ends the session.
    Fatal,
    Quit,
}

/// The phase that `event` leads to from `phase`, if `phase` takes it.
pub open spec fn spec_next_phase(phase: Phase, event: Event) -> Option<Phase> {
    match (phase, event) {
        (_, Event::Fatal) => Some(Phase::Terminated),
        (Phase::Listening, Event::Accepted) => Some(Phase::Connecting),
        (Phase::Connecting, Event::Accepted) => Some(Phase::Connecting),
        (Phase::Listening, Event::RosterComplete) => Some(Phase::Idle),
        (Phase::Connecting, Event::RosterComplete) => Some(Phase::Idle),
        (Phase::Idle, Event::InitRequested) => Some(Phase::Initializing),
        (Phase::Initializing, Event::WorkersInitialized) => Some(Phase::Idle),
        (Phase::Idle, Event::RenderRequested) => Some(Phase::Rendering),
        (Phase::Rendering, Event::RenderJoined) => Some(Phase::Snapshotting),
        (Phase::Snapshotting, Event::SnapshotWritten) => Some(Phase::Idle),
        (Phase::Snapshotting, Event::FrameShown) => Some(Phase::Idle),
        (Phase::Idle, Event::CameraRequested) => Some(Phase::Moving),
        (Phase::Moving, Event::CameraAcknowledged) => Some(Phase::Idle),
        (Phase::Idle, Event::Quit) => Some(Phase::Terminated),
        _ => None,
    }
}

/// The phase that `event` leads to from `phase`; `None` when `phase` does not
/// take `event`.
pub fn next_phase(phase: Phase, event: Event) -> (r: Option<Phase>)
    ensures
        r == spec_next_phase(phase, event),
{
    match (phase, event) {
        (_, Event::Fatal) => Some(Phase::Terminated),
        (Phase::Listening, Event::Accepted) => Some(Phase::Connecting),
        (Phase::Connecting, Event::Accepted) => Some(Phase::Connecting),
        (Phase::Listening, Event::RosterComplete) => Some(Phase::Idle),
        (Phase::Connecting, Event::RosterComplete) => Some(Phase::Idle),
        (Phase::Idle, Event::InitRequested) => Some(Phase::Initializing),
        (Phase::Initializing, Event::WorkersInitialized) => Some(Phase::Idle),
        (Phase::Idle, Event::RenderRequested) => Some(Phase::Rendering),
        (Phase::Rendering, Event::RenderJoined) => Some(Phase::Snapshotting),
        (Phase::Snapshotting, Event::SnapshotWritten) => Some(Phase::Idle),
        (Phase::Snapshotting, Event::FrameShown) => Some(Phase::Idle),
        (Phase::Idle, Event::CameraRequested) => Some(Phase::Moving),
        (Phase::Moving, Event::CameraAcknowledged) => Some(Phase::Idle),
        (Phase::Idle, Event::Quit) => Some(Phase::Terminated),
        _ => None,
    }
}

/// A key of the interactive variant, on an AZERTY layout.
#[derive(Clone, Copy, Debug, PartialEq, Eq, Structural)]
pub enum Key {
    Z,
    S,
    D,
    Q,
    R,
    F,
    A,
    E,
    M,
    Up,
    Down,
    Left,
    Right,
    Escape,
    /// Any key that has no binding.
    Other,
}

/// What a key press asks of the session.
#[derive(Clone, Copy, Debug, PartialEq, Eq, Structural)]
pub enum KeyAction {
    /// Write the frame out and end the session.
    Quit,
    /// Move the camera on every worker, then render and show a new frame.
    MoveAndRender(CameraMovement),
    /// Move the camera on every worker, with no new frame.
    Move(CameraMovement),
    /// Nothing.
    Ignore,
}

pub open spec fn spec_key_action(key: Key) -> KeyAction {
    match key {
        Key::Escape => KeyAction::Quit,
        Key::Z => KeyAction::MoveAndRender(CameraMovement::TranslateForward),
        Key::S => KeyAction::MoveAndRender(CameraMovement::TranslateBackwards),
        Key::D => KeyAction::MoveAndRender(CameraMovement::TranslateRight),
        Key::Q => KeyAction::MoveAndRender(CameraMovement::TranslateLeft),
        Key::R => KeyAction::MoveAndRender(CameraMovement::TranslateUp),
        Key::F => KeyAction::MoveAndRender(CameraMovement::TranslateDown),
        Key::A => KeyAction::MoveAndRender(CameraMovement::RollLeft),
        Key::E => KeyAction::MoveAndRender(CameraMovement::RollRight),
        Key::Up => KeyAction::MoveAndRender(CameraMovement::PitchUp),
        Key::Down => KeyAction::MoveAndRender(CameraMovement::PitchDown),
        Key::Left => KeyAction::MoveAndRender(CameraMovement::YawLeft),
        Key::Right => KeyAction::MoveAndRender(CameraMovement::YawRight),
        Key::M => KeyAction::Move(CameraMovement::ModeSwitch),
        Key::Other => KeyAction::Ignore,
    }
}

/// What pressing `key` asks of the session.
pub fn key_action(key: Key) -> (r: KeyAction)
    ensures
        r == spec_key_action(key),
{
    match key {
        Key::Escape => KeyAction::Quit,
        Key::Z => KeyAction::MoveAndRender(CameraMovement::TranslateForward),
        Key::S => KeyAction::MoveAndRender(CameraMovement::TranslateBackwards),
        Key::D => KeyAction::MoveAndRender(CameraMovement::TranslateRight),
        Key::Q => KeyAction::MoveAndRender(CameraMovement::TranslateLeft),
        Key::R => KeyAction::MoveAndRender(CameraMovement::TranslateUp),
        Key::F => KeyAction::MoveAndRender(CameraMovement::TranslateDown),
        Key::A => KeyAction::MoveAndRender(CameraMovement::RollLeft),
        Key::E => KeyAction::MoveAndRender(CameraMovement::RollRight),
        Key::Up => KeyAction::MoveAndRender(CameraMovement::PitchUp),
        Key::Down => KeyAction::MoveAndRender(CameraMovement::PitchDown),
        Key::Left => KeyAction::MoveAndRender(CameraMovement::YawLeft),
        Key::Right => KeyAction::MoveAndRender(CameraMovement::YawRight),
        Key::M => KeyAction::Move(CameraMovement::ModeSwitch),
        Key::Other => KeyAction::Ignore,
    }
}

/// One step of the scripted variant.
#[derive(Clone, Copy, Debug, PartialEq, Eq, Structural)]
pub enum Step {
    /// Render a frame on every worker.
    Render,
    /// Write the frame out as the `index`-th snapshot, counted from 1.
    Snapshot { index: usize },
    /// Move the camera on every worker.
    Move { movement: CameraMovement },
}

/// The scripted variant: `frames` rounds of render, snapshot, then a step
/// forward of the camera.
pub fn scripted_plan(frames: usize) -> (r: Vec<Step>)
    requires
        frames * 3 <= usize::MAX,
    ensures
        r@.len() == frames * 3,
        forall|k: int|
            0 <= k < frames ==> #[trigger] r@[3 * k] == Step::Render && r@[3 * k + 1] == (Step::Snapshot {
                index: (k + 1) as usize,
            }) && r@[3 * k + 2] == (Step::Move { movement: CameraMovement::TranslateForward }),
{
    let mut plan: Vec<Step> = Vec::new();
    let mut k: usize = 0;
    while k < frames
        invariant
            0 <= k <= frames,
            frames * 3 <= usize::MAX,
            plan@.len() == k * 3,
            forall|j: int|
                0 <= j < k ==> #[trigger] plan@[3 * j] == Step::Render && plan@[3 * j + 1] == (
                Step::Snapshot { index: (j + 1) as usize }) && plan@[3 * j + 2] == (Step::Move {
                    movement: CameraMovement::TranslateForward,
                }),
        decreases frames - k,
    {
        plan.push(Step::Render);
        plan.push(Step::Snapshot { index: k + 1 });
        plan.push(Step::Move { movement: CameraMovement::TranslateForward });
        k = k + 1;
    }
    plan
}

} // verus!
