use orchestrator::protocol::{CameraMovement, Command, ProtocolError};
use orchestrator::roster::{Roster, RosterError};
use orchestrator::session::{
    check_settings, init_commands, key_action, new_frame, next_phase, scripted_plan, ConfigError, Event, Key,
    KeyAction, Phase, Step,
};
use orchestrator::snapshot::{encode_snapshot, snapshot_name, SnapshotError};

#[test]
fn settings_are_checked() {
    assert_eq!(check_settings(64, 1, 1), Ok(192));
    assert_eq!(check_settings(128, 4, 2), Ok(1536));
    assert_eq!(check_settings(0, 4, 2), Err(ConfigError::BadWidth));
    assert_eq!(check_settings(100, 4, 2), Err(ConfigError::BadWidth));
    assert_eq!(check_settings(64, 0, 2), Err(ConfigError::BadHeight));
    assert_eq!(check_settings(64, 4, 0), Err(ConfigError::NoWorkers));
    assert_eq!(check_settings(64 << 40, 1 << 30, 1), Err(ConfigError::TooLarge));
}

#[test]
fn fresh_frame_is_mid_grey() {
    let f = new_frame(1536);
    assert_eq!(f.len(), 1536);
    assert!(f.iter().all(|&b| b == 0x7F));
    assert!(new_frame(0).is_empty());
}

#[test]
fn init_sends_info_then_scene() {
    let cmds = init_commands(64, 1, &b"scene.xml".to_vec());
    assert_eq!(cmds.len(), 2);
    assert_eq!(cmds[0].payload(), b"INFO 64 1".to_vec());
    assert_eq!(cmds[1].payload(), b"SETSCENE scene.xml".to_vec());
}

#[test]
fn roster_assigns_dense_ids() {
    let mut r = Roster::new(2);
    assert!(!r.is_complete());
    assert_eq!(r.enroll(b"HELLO a"), Err(RosterError::Handshake(ProtocolError::WrongTag)));
    assert_eq!(r.enroll(b"LOGIN"), Err(RosterError::Handshake(ProtocolError::MissingArgument)));
    assert_eq!(r.len(), 0);
    assert_eq!(r.enroll(b"LOGIN alpha"), Ok(1));
    assert_eq!(r.enroll(b"LOGIN beta gamma"), Ok(2));
    assert!(r.is_complete());
    assert_eq!(r.enroll(b"LOGIN late"), Err(RosterError::Full));
    let ws = r.workers();
    assert_eq!(ws.len(), 2);
    assert_eq!(ws[0].id, 1);
    assert_eq!(ws[0].name, b"alpha".to_vec());
    assert_eq!(ws[1].id, 2);
    assert_eq!(ws[1].name, b"beta gamma".to_vec());
}

#[test]
fn phases_follow_the_session() {
    let mut p = Phase::Listening;
    for (e, want) in [
        (Event::Accepted, Phase::Connecting),
        (Event::RosterComplete, Phase::Idle),
        (Event::InitRequested, Phase::Initializing),
        (Event::WorkersInitialized, Phase::Idle),
        (Event::RenderRequested, Phase::Rendering),
        (Event::RenderJoined, Phase::Snapshotting),
        (Event::SnapshotWritten, Phase::Idle),
        (Event::CameraRequested, Phase::Moving),
        (Event::CameraAcknowledged, Phase::Idle),
        (Event::Quit, Phase::Terminated),
    ] {
        p = next_phase(p, e).unwrap();
        assert_eq!(p, want);
    }
    assert_eq!(next_phase(Phase::Listening, Event::RosterComplete), Some(Phase::Idle));
    assert_eq!(next_phase(Phase::Snapshotting, Event::FrameShown), Some(Phase::Idle));
    assert_eq!(next_phase(Phase::Idle, Event::FrameShown), None);
    assert_eq!(next_phase(Phase::Rendering, Event::Fatal), Some(Phase::Terminated));
    assert_eq!(next_phase(Phase::Rendering, Event::Quit), None);
    assert_eq!(next_phase(Phase::Idle, Event::RenderJoined), None);
    assert_eq!(next_phase(Phase::Listening, Event::RenderRequested), None);
}

#[test]
fn keys_map_to_camera_moves() {
    assert_eq!(key_action(Key::Escape), KeyAction::Quit);
    assert_eq!(key_action(Key::Z), KeyAction::MoveAndRender(CameraMovement::TranslateForward));
    assert_eq!(key_action(Key::S), KeyAction::MoveAndRender(CameraMovement::TranslateBackwards));
    assert_eq!(key_action(Key::D), KeyAction::MoveAndRender(CameraMovement::TranslateRight));
    assert_eq!(key_action(Key::Q), KeyAction::MoveAndRender(CameraMovement::TranslateLeft));
    assert_eq!(key_action(Key::R), KeyAction::MoveAndRender(CameraMovement::TranslateUp));
    assert_eq!(key_action(Key::F), KeyAction::MoveAndRender(CameraMovement::TranslateDown));
    assert_eq!(key_action(Key::A), KeyAction::MoveAndRender(CameraMovement::RollLeft));
    assert_eq!(key_action(Key::E), KeyAction::MoveAndRender(CameraMovement::RollRight));
    assert_eq!(key_action(Key::Up), KeyAction::MoveAndRender(CameraMovement::PitchUp));
    assert_eq!(key_action(Key::Down), KeyAction::MoveAndRender(CameraMovement::PitchDown));
    assert_eq!(key_action(Key::Left), KeyAction::MoveAndRender(CameraMovement::YawLeft));
    assert_eq!(key_action(Key::Right), KeyAction::MoveAndRender(CameraMovement::YawRight));
    assert_eq!(key_action(Key::M), KeyAction::Move(CameraMovement::ModeSwitch));
    assert_eq!(key_action(Key::Other), KeyAction::Ignore);
}

#[test]
fn scripted_plan_has_five_rounds() {
    let plan = scripted_plan(5);
    assert_eq!(plan.len(), 15);
    for k in 0..5 {
        assert_eq!(plan[3 * k], Step::Render);
        assert_eq!(plan[3 * k + 1], Step::Snapshot { index: k + 1 });
        assert_eq!(plan[3 * k + 2], Step::Move { movement: CameraMovement::TranslateForward });
    }
    assert!(scripted_plan(0).is_empty());
}

#[test]
fn snapshot_names() {
    assert_eq!(snapshot_name(None), b"image.png".to_vec());
    assert_eq!(snapshot_name(Some(1)), b"image1.png".to_vec());
    assert_eq!(snapshot_name(Some(5)), b"image5.png".to_vec());
    assert_eq!(snapshot_name(Some(12)), b"image12.png".to_vec());
}

#[test]
fn snapshot_is_a_png() {
    let frame = new_frame(64 * 2 * 3);
    let png = encode_snapshot(&frame, 64, 2).unwrap();
    assert_eq!(&png[..8], &[137u8, 80, 78, 71, 13, 10, 26, 10]);
    assert_ne!(png, frame);
    // the header records the size
    assert_eq!(&png[12..16], b"IHDR");
    assert_eq!(&png[16..20], &64u32.to_be_bytes());
    assert_eq!(&png[20..24], &2u32.to_be_bytes());
}

#[test]
fn snapshot_refuses_bad_frames() {
    assert_eq!(encode_snapshot(&[0u8; 10], 64, 2), Err(SnapshotError::Encoder));
    assert_eq!(encode_snapshot(&[], 0, 2), Err(SnapshotError::Encoder));
    assert_eq!(encode_snapshot(&[], (u32::MAX as usize) + 1, 1), Err(SnapshotError::TooLarge));
}

#[test]
fn cam_command_is_acknowledged_by_camdone() {
    let c = Command::Cam { movement: CameraMovement::ModeSwitch };
    assert_eq!(c.payload(), b"CAM sM".to_vec());
    assert_eq!(c.reply_tag(), b"CAMDONE".to_vec());
}
