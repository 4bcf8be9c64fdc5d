use orchestrator::bands::{band_stride, Band};
use orchestrator::conversation::Conversation;
use orchestrator::frame::{decode_frame, encode_frame};
use orchestrator::protocol::{CameraMovement, Command, ProtocolError};
use orchestrator::render::BandRender;
use orchestrator::session::{check_settings, init_commands, key_action, new_frame, scripted_plan, Key, KeyAction, Step};
use orchestrator::snapshot::{encode_snapshot, snapshot_name};

/// The pixels a stub worker sends for row `y`: a pattern fixed by the row.
fn stub_row(y: usize, width: usize) -> Vec<u8> {
    (0..width * 3).map(|i| ((i * 31 + y * 7 + 5) % 256) as u8).collect()
}

/// A stub worker: reads a command frame and answers it.
fn stub_answer(wire: &[u8], width: usize, seen: &mut Vec<String>) -> Vec<u8> {
    let (payload, used) = decode_frame(wire).unwrap();
    assert_eq!(used, wire.len());
    let text = String::from_utf8(payload).unwrap();
    seen.push(text.clone());
    let reply = if text.starts_with("CALCULATE ") {
        let fields: Vec<usize> = text[10..].split(' ').map(|f| f.parse().unwrap()).collect();
        assert_eq!(fields[0], 1);
        assert_eq!(fields[2], width);
        assert_eq!(fields[3], 1);
        let mut p = b"RESULT 1 ".to_vec();
        p.extend_from_slice(&stub_row(fields[1], width));
        p
    } else if text.starts_with("INFO ") {
        b"INFODONE".to_vec()
    } else if text.starts_with("SETSCENE ") {
        b"SETSCENEDONE".to_vec()
    } else if text.starts_with("CAM ") {
        b"CAMDONE".to_vec()
    } else {
        panic!("unexpected command {}", text)
    };
    encode_frame(&reply)
}

/// One exchange on a worker's connection: the coordinator sends `cmd`, the
/// stub answers, and the coordinator reads the reply's payload.
fn exchange(conv: &mut Conversation, cmd: &Command, width: usize, seen: &mut Vec<String>) -> Vec<u8> {
    let wire = conv.send(cmd).unwrap();
    let answer = stub_answer(&wire, width, seen);
    let (payload, _) = decode_frame(&answer).unwrap();
    conv.receive(&payload).unwrap();
    payload
}

/// Renders every band, worker after worker, against stub workers.
fn render_all(
    convs: &mut [Conversation],
    frame: &mut [u8],
    width: usize,
    height: usize,
    seen: &mut [Vec<String>],
) {
    let workers = convs.len();
    let stride = band_stride(width, height, workers);
    for (i, chunk) in frame.chunks_mut(stride).enumerate() {
        let mut task = BandRender::new(Band::of(i, workers, height), width);
        while let Some(cmd) = task.next_command() {
            let payload = exchange(&mut convs[i], &cmd, width, &mut seen[i]);
            task.accept(&payload, chunk).unwrap();
        }
    }
}

fn expected_frame(width: usize, height: usize) -> Vec<u8> {
    (0..height).flat_map(|y| stub_row(y, width)).collect()
}

#[test]
fn single_worker_single_row_session() {
    let (width, height, workers) = (64, 1, 1);
    let len = check_settings(width, height, workers).unwrap();
    let mut frame = new_frame(len);
    let mut convs = vec![Conversation::new()];
    let mut seen = vec![Vec::new()];
    for cmd in init_commands(width, height, &b"scene.xml".to_vec()) {
        exchange(&mut convs[0], &cmd, width, &mut seen[0]);
    }
    render_all(&mut convs, &mut frame, width, height, &mut seen);
    assert_eq!(seen[0], vec!["INFO 64 1", "SETSCENE scene.xml", "CALCULATE 1 0 64 1"]);
    assert_eq!(&frame[0..192], &stub_row(0, 64)[..]);
    assert_eq!(snapshot_name(None), b"image.png".to_vec());
    let png = encode_snapshot(&frame, width, height).unwrap();
    assert_eq!(&png[16..24], &[0, 0, 0, 64, 0, 0, 0, 1]);
}

#[test]
fn two_workers_split_four_rows() {
    let (width, height) = (128, 4);
    let mut frame = new_frame(check_settings(width, height, 2).unwrap());
    let mut convs = vec![Conversation::new(), Conversation::new()];
    let mut seen = vec![Vec::new(), Vec::new()];
    render_all(&mut convs, &mut frame, width, height, &mut seen);
    assert_eq!(seen[0], vec!["CALCULATE 1 0 128 1", "CALCULATE 1 1 128 1"]);
    assert_eq!(seen[1], vec!["CALCULATE 1 2 128 1", "CALCULATE 1 3 128 1"]);
    let want = expected_frame(width, height);
    assert_eq!(&frame[0..768], &want[0..768]);
    assert_eq!(&frame[768..1536], &want[768..1536]);
}

#[test]
fn two_workers_three_rows_clamped() {
    let (width, height) = (64, 3);
    assert_eq!(Band::of(0, 2, 3), Band { first: 0, end: 2 });
    assert_eq!(Band::of(1, 2, 3), Band { first: 2, end: 3 });
    let mut frame = new_frame(check_settings(width, height, 2).unwrap());
    let mut convs = vec![Conversation::new(), Conversation::new()];
    let mut seen = vec![Vec::new(), Vec::new()];
    render_all(&mut convs, &mut frame, width, height, &mut seen);
    assert_eq!(seen[0], vec!["CALCULATE 1 0 64 1", "CALCULATE 1 1 64 1"]);
    assert_eq!(seen[1], vec!["CALCULATE 1 2 64 1"]);
    assert_eq!(frame, expected_frame(width, height));
}

#[test]
fn frame_matches_stub_rows_in_order() {
    for (width, height, workers) in [(64, 7, 3), (128, 5, 5), (64, 4, 3), (192, 9, 2), (64, 2, 4)] {
        let mut frame = new_frame(check_settings(width, height, workers).unwrap());
        let mut convs: Vec<Conversation> = (0..workers).map(|_| Conversation::new()).collect();
        let mut seen: Vec<Vec<String>> = vec![Vec::new(); workers];
        render_all(&mut convs, &mut frame, width, height, &mut seen);
        assert_eq!(frame, expected_frame(width, height));
        let asked: usize = seen.iter().map(|s| s.len()).sum();
        assert_eq!(asked, height);
    }
}

#[test]
fn scripted_five_frames() {
    let (width, height) = (64, 2);
    let mut frame = new_frame(check_settings(width, height, 2).unwrap());
    let mut convs = vec![Conversation::new(), Conversation::new()];
    let mut seen = vec![Vec::new(), Vec::new()];
    let mut log: Vec<String> = Vec::new();
    for step in scripted_plan(5) {
        match step {
            Step::Render => {
                render_all(&mut convs, &mut frame, width, height, &mut seen);
                log.push("render".to_string());
            }
            Step::Snapshot { index } => {
                encode_snapshot(&frame, width, height).unwrap();
                log.push(String::from_utf8(snapshot_name(Some(index))).unwrap());
            }
            Step::Move { movement } => {
                let cmd = Command::Cam { movement };
                for (i, conv) in convs.iter_mut().enumerate() {
                    let reply = exchange(conv, &cmd, width, &mut seen[i]);
                    assert_eq!(reply, b"CAMDONE".to_vec());
                }
                log.push("cam".to_string());
            }
        }
    }
    let want: Vec<String> = (1..=5)
        .flat_map(|k| vec!["render".to_string(), format!("image{}.png", k), "cam".to_string()])
        .collect();
    assert_eq!(log, want);
    assert_eq!(seen[0].iter().filter(|c| *c == "CAM tF").count(), 5);
    assert_eq!(seen[1].iter().filter(|c| *c == "CAM tF").count(), 5);
}

#[test]
fn interactive_keys_z_right_escape() {
    let actions: Vec<KeyAction> = [Key::Z, Key::Right, Key::Escape].iter().map(|k| key_action(*k)).collect();
    assert_eq!(
        actions,
        vec![
            KeyAction::MoveAndRender(CameraMovement::TranslateForward),
            KeyAction::MoveAndRender(CameraMovement::YawRight),
            KeyAction::Quit,
        ]
    );
    let mut payloads = Vec::new();
    for a in &actions {
        if let KeyAction::MoveAndRender(m) = a {
            payloads.push(Command::Cam { movement: *m }.payload());
        }
    }
    assert_eq!(payloads, vec![b"CAM tF".to_vec(), b"CAM yR".to_vec()]);
}

#[test]
fn bad_result_header_is_a_protocol_violation() {
    let width = 64;
    let mut chunk = vec![0x7Fu8; width * 3];
    let mut conv = Conversation::new();
    let mut task = BandRender::new(Band::of(0, 1, 1), width);
    let cmd = task.next_command().unwrap();
    conv.send(&cmd).unwrap();
    let mut bad = b"RESULT 2 ".to_vec();
    bad.extend_from_slice(&stub_row(0, width));
    let wire = encode_frame(&bad);
    let (payload, _) = decode_frame(&wire).unwrap();
    conv.receive(&payload).unwrap();
    assert_eq!(task.accept(&payload, &mut chunk), Err(ProtocolError::WrongResultHeader));
    assert!(chunk.iter().all(|&b| b == 0x7F));
}
