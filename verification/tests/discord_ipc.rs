use obs_chzzk_extension::discord::{
    check_handshake_reply, classify_frame, decode_ipc_header, encode_ipc_frame,
    extract_rpc_error_message, ipc_socket_candidates, preview_payload, DiscordIpcOpcode,
    ExitReason, HandshakeError, IpcEvent, PresenceWorker, WorkerAction, WorkerEvent, WorkerPhase,
};
use obs_chzzk_extension::json::JsonValue;

fn text(s: &str) -> JsonValue {
    JsonValue::Str(s.to_string())
}

fn obj(members: Vec<(&str, JsonValue)>) -> JsonValue {
    JsonValue::Object(members.into_iter().map(|(k, v)| (k.to_string(), v)).collect())
}

#[test]
fn opcodes_have_five_wire_numbers() {
    assert!(DiscordIpcOpcode::from_u32(0) == Some(DiscordIpcOpcode::Handshake));
    assert!(DiscordIpcOpcode::from_u32(3) == Some(DiscordIpcOpcode::Ping));
    assert!(DiscordIpcOpcode::from_u32(4) == Some(DiscordIpcOpcode::Pong));
    assert!(DiscordIpcOpcode::from_u32(5).is_none());
    assert_eq!(DiscordIpcOpcode::Close.as_u32(), 2);
}

#[test]
fn frames_start_with_a_little_endian_header() {
    let frame = encode_ipc_frame(DiscordIpcOpcode::Frame, b"{}");
    assert_eq!(frame, vec![1, 0, 0, 0, 2, 0, 0, 0, b'{', b'}']);
    let big = vec![b'x'; 300];
    let frame = encode_ipc_frame(DiscordIpcOpcode::Handshake, &big);
    assert_eq!(&frame[..8], &[0, 0, 0, 0, 44, 1, 0, 0]);
    assert_eq!(frame.len(), 308);
}

#[test]
fn header_decoding_undoes_encoding() {
    let frame = encode_ipc_frame(DiscordIpcOpcode::Ping, &vec![7u8; 70000]);
    let mut header = [0u8; 8];
    header.copy_from_slice(&frame[..8]);
    let (op, len) = decode_ipc_header(&header).ok().unwrap();
    assert!(op == DiscordIpcOpcode::Ping);
    assert_eq!(len, 70000);
    let bad = [9u8, 0, 0, 0, 0, 0, 0, 0];
    assert_eq!(decode_ipc_header(&bad).err().unwrap(), "unknown opcode: 9");
}

#[test]
fn preview_escapes_newlines() {
    assert_eq!(preview_payload("a\nb\n"), "a\\nb\\n");
    assert_eq!(preview_payload("plain"), "plain");
}

#[test]
fn rpc_error_message_comes_from_error_events() {
    let with_message = Some(obj(vec![
        ("evt", text("ERROR")),
        ("data", obj(vec![("message", text("Invalid Client ID"))])),
    ]));
    assert_eq!(extract_rpc_error_message(&with_message), Some("Invalid Client ID".to_string()));
    let without = Some(obj(vec![("evt", text("ERROR"))]));
    assert_eq!(extract_rpc_error_message(&without), Some("discord rpc returned ERROR event".to_string()));
    let ready = Some(obj(vec![("evt", text("READY"))]));
    assert_eq!(extract_rpc_error_message(&ready), None);
    assert_eq!(extract_rpc_error_message(&None), None);
}

#[test]
fn handshake_reply_must_be_a_frame_without_error() {
    assert!(check_handshake_reply(DiscordIpcOpcode::Frame, &Some(obj(vec![("evt", text("READY"))]))).is_ok());
    match check_handshake_reply(DiscordIpcOpcode::Close, &None) {
        Err(HandshakeError::InvalidData(m)) => assert_eq!(m, "unexpected handshake opcode: 2"),
        _ => panic!("a close reply is invalid data"),
    }
    let error = Some(obj(vec![("evt", text("ERROR")), ("data", obj(vec![("message", text("no"))]))]));
    match check_handshake_reply(DiscordIpcOpcode::Frame, &error) {
        Err(HandshakeError::PermissionDenied(m)) => assert_eq!(m, "handshake error: no"),
        _ => panic!("an error event is refused"),
    }
}

#[test]
fn frames_are_classified_by_opcode() {
    match classify_frame(DiscordIpcOpcode::Ping, vec![1, 2], &None) {
        IpcEvent::Ping(p) => assert_eq!(p, vec![1, 2]),
        _ => panic!("ping"),
    }
    assert!(matches!(classify_frame(DiscordIpcOpcode::Close, vec![], &None), IpcEvent::Close));
    assert!(matches!(classify_frame(DiscordIpcOpcode::Pong, vec![], &None), IpcEvent::Other));
    let error = Some(obj(vec![("evt", text("ERROR"))]));
    match classify_frame(DiscordIpcOpcode::Frame, vec![], &error) {
        IpcEvent::RpcError(m) => assert_eq!(m, "discord rpc returned ERROR event"),
        _ => panic!("rpc error"),
    }
}

#[test]
fn worker_runs_until_told_to_stop() {
    let (mut worker, first) = PresenceWorker::start();
    assert!(matches!(first, WorkerAction::Connect));
    assert!(matches!(worker.step(WorkerEvent::Connected(true)), WorkerAction::Handshake));
    assert!(matches!(worker.step(WorkerEvent::HandshakeDone(true)), WorkerAction::SetActivity));
    assert!(matches!(worker.step(WorkerEvent::ActivitySet(true)), WorkerAction::PollCommand));
    assert!(matches!(worker.step(WorkerEvent::NoCommand), WorkerAction::ReadEvent));
    match worker.step(WorkerEvent::Incoming(IpcEvent::Ping(vec![9]))) {
        WorkerAction::SendPong(p) => assert_eq!(p, vec![9]),
        _ => panic!("a ping is answered"),
    }
    assert!(matches!(worker.step(WorkerEvent::PongSent(true)), WorkerAction::PollCommand));
    assert!(matches!(worker.step(WorkerEvent::NoCommand), WorkerAction::ReadEvent));
    assert!(matches!(worker.step(WorkerEvent::ReadIdle), WorkerAction::PollCommand));
    assert!(matches!(
        worker.step(WorkerEvent::StopCommand),
        WorkerAction::Exit { clear_activity: true, reason: ExitReason::Stopped }
    ));
    assert!(worker.phase == WorkerPhase::Exited);
    assert!(matches!(worker.step(WorkerEvent::NoCommand), WorkerAction::Nothing));
    assert!(worker.phase == WorkerPhase::Exited);
}

#[test]
fn worker_exits_without_clearing_on_failures() {
    let (mut worker, _) = PresenceWorker::start();
    assert!(matches!(
        worker.step(WorkerEvent::Connected(false)),
        WorkerAction::Exit { clear_activity: false, reason: ExitReason::ConnectFailed }
    ));
    let (mut worker, _) = PresenceWorker::start();
    worker.step(WorkerEvent::Connected(true));
    worker.step(WorkerEvent::HandshakeDone(true));
    worker.step(WorkerEvent::ActivitySet(true));
    worker.step(WorkerEvent::NoCommand);
    match worker.step(WorkerEvent::Incoming(IpcEvent::RpcError("bad".to_string()))) {
        WorkerAction::Exit { clear_activity: false, reason: ExitReason::RpcError(m) } => assert_eq!(m, "bad"),
        _ => panic!("an rpc error ends the worker"),
    }
    let (mut worker, _) = PresenceWorker::start();
    assert!(matches!(worker.step(WorkerEvent::NoCommand), WorkerAction::Nothing));
    assert!(worker.phase == WorkerPhase::Connecting);
}

#[test]
fn socket_candidates_try_named_dirs_then_tmp() {
    let values = vec![Some(" /run/user/1000 ".to_string()), None, Some("   ".to_string()), Some("/var/tmp".to_string())];
    let candidates = ipc_socket_candidates(&values);
    assert_eq!(candidates.len(), 30);
    assert_eq!(candidates[0], ("/run/user/1000".to_string(), "discord-ipc-0".to_string()));
    assert_eq!(candidates[9], ("/run/user/1000".to_string(), "discord-ipc-9".to_string()));
    assert_eq!(candidates[10], ("/var/tmp".to_string(), "discord-ipc-0".to_string()));
    assert_eq!(candidates[29], ("/tmp".to_string(), "discord-ipc-9".to_string()));
    let only_tmp = ipc_socket_candidates(&vec![None, None, None, None]);
    assert_eq!(only_tmp.len(), 10);
    assert_eq!(only_tmp[3], ("/tmp".to_string(), "discord-ipc-3".to_string()));
}
