use graphflow::params::SimulationMode;
use graphflow::session::{
    classify_message_type, fisheye_response, parse_simulation_mode, ConversationStep,
    InboundFrame, MessageKind, ServerMessage, SessionAction, WebSocketSession,
};

#[test]
fn test_unknown_message_type_single_error_frame() {
    let mut s = WebSocketSession::new(false);
    let actions = s.handle(InboundFrame::Text("{\"type\":\"bogus\"}".to_string()));
    assert_eq!(actions.len(), 1);
    match &actions[0] {
        SessionAction::SendText(ServerMessage::Error { message, code }) => {
            assert_eq!(message, "Unknown message type");
            assert_eq!(code.as_deref(), Some("UNKNOWN_MESSAGE_TYPE"));
        }
        other => panic!("expected an error frame, got {:?}", other),
    }
    // The session stays open: no Stop action was issued.
    assert!(!actions.iter().any(|a| matches!(a, SessionAction::Stop)));
}

#[test]
fn test_missing_type_field_is_unknown() {
    let mut s = WebSocketSession::new(false);
    let actions = s.handle(InboundFrame::Text("{\"x\":1}".to_string()));
    assert_eq!(actions.len(), 1);
    assert!(matches!(
        &actions[0],
        SessionAction::SendText(ServerMessage::Error { .. })
    ));
}

#[test]
fn test_invalid_json_is_dropped() {
    let mut s = WebSocketSession::new(false);
    let actions = s.handle(InboundFrame::Text("this is not json".to_string()));
    assert_eq!(actions.len(), 0);
}

#[test]
fn test_incomplete_chat_is_dropped() {
    let mut s = WebSocketSession::new(false);
    let actions = s.handle(InboundFrame::Text("{\"type\":\"chat\"}".to_string()));
    assert_eq!(actions.len(), 0);
}

#[test]
fn test_ping_answered_with_payload() {
    let mut s = WebSocketSession::new(false);
    let actions = s.handle(InboundFrame::Ping(vec![1, 2, 3]));
    assert_eq!(actions.len(), 1);
    match &actions[0] {
        SessionAction::ReplyPong(p) => assert_eq!(p, &vec![1, 2, 3]),
        other => panic!("expected a pong, got {:?}", other),
    }
}

#[test]
fn test_close_acks_and_stops() {
    let mut s = WebSocketSession::new(false);
    let actions = s.handle(InboundFrame::Close);
    assert_eq!(actions.len(), 2);
    assert!(matches!(actions[0], SessionAction::CloseAck));
    assert!(matches!(actions[1], SessionAction::Stop));
}

#[test]
fn test_binary_and_pong_are_no_ops() {
    let mut s = WebSocketSession::new(false);
    assert_eq!(s.handle(InboundFrame::Binary(vec![0u8; 8])).len(), 0);
    assert_eq!(s.handle(InboundFrame::Pong).len(), 0);
}

#[test]
fn test_simulation_mode_local() {
    let mut s = WebSocketSession::new(true);
    let actions = s.handle(InboundFrame::Text(
        "{\"type\":\"simulation_mode\",\"mode\":\"local\"}".to_string(),
    ));
    assert_eq!(s.simulation_mode, SimulationMode::Local);
    assert_eq!(actions.len(), 1);
    match &actions[0] {
        SessionAction::SendText(ServerMessage::SimulationModeSet { mode, gpu_enabled }) => {
            assert_eq!(mode, "local");
            assert!(!gpu_enabled);
        }
        other => panic!("expected a mode-set reply, got {:?}", other),
    }
}

#[test]
fn test_simulation_mode_remote_starts_ticks_with_gpu() {
    let mut s = WebSocketSession::new(true);
    let actions = s.handle(InboundFrame::Text(
        "{\"type\":\"simulation_mode\",\"mode\":\"remote\"}".to_string(),
    ));
    assert_eq!(s.simulation_mode, SimulationMode::Remote);
    assert_eq!(actions.len(), 2);
    assert!(matches!(actions[0], SessionAction::StartGpuUpdates));
    match &actions[1] {
        SessionAction::SendText(ServerMessage::SimulationModeSet { mode, gpu_enabled }) => {
            assert_eq!(mode, "remote");
            assert!(gpu_enabled);
        }
        other => panic!("expected a mode-set reply, got {:?}", other),
    }
}

#[test]
fn test_unknown_mode_falls_back_to_remote() {
    let mut s = WebSocketSession::new(false);
    let actions = s.handle(InboundFrame::Text(
        "{\"type\":\"simulation_mode\",\"mode\":\"quantum\"}".to_string(),
    ));
    assert_eq!(s.simulation_mode, SimulationMode::Remote);
    assert_eq!(actions.len(), 1);
    match &actions[0] {
        SessionAction::SendText(ServerMessage::SimulationModeSet { mode, gpu_enabled }) => {
            assert_eq!(mode, "quantum");
            assert!(gpu_enabled);
        }
        other => panic!("expected a mode-set reply, got {:?}", other),
    }
}

#[test]
fn test_initial_data_with_gpu() {
    let mut s = WebSocketSession::new(true);
    s.simulation_mode = SimulationMode::Local;
    let actions = s.handle(InboundFrame::Text("{\"type\":\"initial_data\"}".to_string()));
    assert_eq!(s.simulation_mode, SimulationMode::Remote);
    assert_eq!(actions.len(), 2);
    assert!(matches!(actions[0], SessionAction::SendInitialData));
    assert!(matches!(actions[1], SessionAction::StartGpuUpdates));
}

#[test]
fn test_initial_data_without_gpu() {
    let mut s = WebSocketSession::new(false);
    let actions = s.handle(InboundFrame::Text("{\"type\":\"initial_data\"}".to_string()));
    assert_eq!(actions.len(), 1);
    assert!(matches!(actions[0], SessionAction::SendInitialData));
}

#[test]
fn test_chat_message_is_relayed() {
    let mut s = WebSocketSession::new(false);
    let actions = s.handle(InboundFrame::Text(
        "{\"type\":\"chat\",\"message\":\"hello\",\"useOpenAI\":true}".to_string(),
    ));
    assert_eq!(actions.len(), 1);
    match &actions[0] {
        SessionAction::RunChat {
            message,
            use_openai,
        } => {
            assert_eq!(message, "hello");
            assert!(use_openai);
        }
        other => panic!("expected a chat relay, got {:?}", other),
    }
}

#[test]
fn test_layout_and_fisheye_are_routed() {
    let mut s = WebSocketSession::new(true);
    let a = s.handle(InboundFrame::Text(
        "{\"type\":\"layout\",\"params\":{\"iterations\":0}}".to_string(),
    ));
    assert_eq!(a.len(), 1);
    assert!(matches!(a[0], SessionAction::RunLayout));
    let b = s.handle(InboundFrame::Text(
        "{\"type\":\"fisheye\",\"enabled\":true}".to_string(),
    ));
    assert_eq!(b.len(), 1);
    assert!(matches!(b[0], SessionAction::RunFisheye));
}

#[test]
fn test_classify_message_type() {
    assert_eq!(
        classify_message_type("initial_data"),
        MessageKind::InitialData
    );
    assert_eq!(classify_message_type("layout"), MessageKind::Layout);
    assert_eq!(classify_message_type("nonsense"), MessageKind::Unknown);
    assert_eq!(classify_message_type(""), MessageKind::Unknown);
}

#[test]
fn test_parse_simulation_mode() {
    assert_eq!(
        parse_simulation_mode("remote"),
        (SimulationMode::Remote, true)
    );
    assert_eq!(parse_simulation_mode("gpu"), (SimulationMode::GPU, true));
    assert_eq!(parse_simulation_mode("local"), (SimulationMode::Local, true));
    assert_eq!(parse_simulation_mode("?"), (SimulationMode::Remote, false));
}

#[test]
fn test_fisheye_response_echoes_parameters() {
    let strength = 2.0f32.to_bits();
    let radius = 1.5f32.to_bits();
    let focus = [1.0f32.to_bits(), 0.0f32.to_bits(), 0.5f32.to_bits()];
    match fisheye_response(true, strength, focus, radius) {
        ServerMessage::FisheyeSettingsUpdated {
            enabled,
            strength: s,
            focus_point,
            radius: r,
        } => {
            assert!(enabled);
            assert_eq!(f32::from_bits(s), 2.0);
            assert_eq!(f32::from_bits(r), 1.5);
            assert_eq!(f32::from_bits(focus_point[0]), 1.0);
        }
        other => panic!("expected a fisheye echo, got {:?}", other),
    }
}

#[test]
fn test_conversation_cell_lifecycle() {
    let mut s = WebSocketSession::new(false);
    // A fresh session holds an empty cell: a conversation must be created.
    assert!(matches!(
        s.conversation_step(),
        ConversationStep::CreateConversation
    ));
    s.set_conversation_id("conv-1".to_string());
    match s.conversation_step() {
        ConversationStep::UseExisting(id) => assert_eq!(id, "conv-1"),
        other => panic!("expected the stored conversation, got {:?}", other),
    }
    // Without a cell at all the request is refused.
    s.conversation_id = None;
    assert!(matches!(s.conversation_step(), ConversationStep::MissingCell));
}

#[test]
fn test_chat_use_openai_defaults_to_false() {
    let mut s = WebSocketSession::new(false);
    let actions = s.handle(InboundFrame::Text(
        "{\"type\":\"chat\",\"message\":\"hi\"}".to_string(),
    ));
    assert_eq!(actions.len(), 1);
    match &actions[0] {
        SessionAction::RunChat {
            message,
            use_openai,
        } => {
            assert_eq!(message, "hi");
            assert!(!use_openai);
        }
        other => panic!("expected a chat relay, got {:?}", other),
    }
}

#[test]
fn test_non_string_type_field_is_unknown() {
    let mut s = WebSocketSession::new(false);
    let actions = s.handle(InboundFrame::Text("{\"type\":5}".to_string()));
    assert_eq!(actions.len(), 1);
    assert!(matches!(
        &actions[0],
        SessionAction::SendText(ServerMessage::Error { .. })
    ));
}
