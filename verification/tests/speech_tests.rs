use graphflow::speech::{
    classify_realtime_event, process_realtime_event, provider_for, speech_step, RealtimeEventKind,
    RealtimeStep, SpeechCommand, SpeechEffect, TTSProvider,
};

#[test]
fn test_provider_for() {
    assert_eq!(provider_for(true), TTSProvider::OpenAI);
    assert_eq!(provider_for(false), TTSProvider::Sonata);
}

#[test]
fn test_speech_step_initialize() {
    assert!(matches!(
        speech_step(TTSProvider::OpenAI, SpeechCommand::Initialize),
        SpeechEffect::ConnectUpstream
    ));
    assert!(matches!(
        speech_step(TTSProvider::Sonata, SpeechCommand::Initialize),
        SpeechEffect::Nothing
    ));
}

#[test]
fn test_speech_step_message_routing() {
    match speech_step(
        TTSProvider::OpenAI,
        SpeechCommand::SendMessage("hi".to_string()),
    ) {
        SpeechEffect::SendUpstream(m) => assert_eq!(m, "hi"),
        other => panic!("expected an upstream send, got {:?}", other),
    }
    match speech_step(
        TTSProvider::Sonata,
        SpeechCommand::SendMessage("hi".to_string()),
    ) {
        SpeechEffect::RunLocalTts(m) => assert_eq!(m, "hi"),
        other => panic!("expected local synthesis, got {:?}", other),
    }
}

#[test]
fn test_speech_step_close_and_switch() {
    assert!(matches!(
        speech_step(TTSProvider::Sonata, SpeechCommand::Close),
        SpeechEffect::CloseStream
    ));
    assert!(matches!(
        speech_step(
            TTSProvider::Sonata,
            SpeechCommand::SetTTSProvider(TTSProvider::OpenAI)
        ),
        SpeechEffect::SetProvider(TTSProvider::OpenAI)
    ));
}

#[test]
fn test_classify_realtime_event() {
    assert_eq!(
        classify_realtime_event("conversation.item.created"),
        RealtimeEventKind::ItemCreated
    );
    assert_eq!(classify_realtime_event("error"), RealtimeEventKind::ApiError);
    assert_eq!(
        classify_realtime_event("response.completed"),
        RealtimeEventKind::ResponseCompleted
    );
    assert_eq!(
        classify_realtime_event("session.updated"),
        RealtimeEventKind::Other
    );
}

#[test]
fn test_realtime_audio_decodes_base64() {
    match process_realtime_event("conversation.item.created", Some("aGVsbG8=")) {
        RealtimeStep::Audio(bytes) => assert_eq!(bytes, b"hello"),
        other => panic!("expected decoded audio, got {:?}", other),
    }
}

#[test]
fn test_realtime_bad_base64_reported() {
    assert!(matches!(
        process_realtime_event("conversation.item.created", Some("!not base64!")),
        RealtimeStep::DecodeFailed
    ));
}

#[test]
fn test_realtime_stop_and_continue() {
    assert!(matches!(
        process_realtime_event("error", None),
        RealtimeStep::Stop
    ));
    assert!(matches!(
        process_realtime_event("response.completed", Some("aGk=")),
        RealtimeStep::Stop
    ));
    assert!(matches!(
        process_realtime_event("conversation.item.created", None),
        RealtimeStep::Continue
    ));
    assert!(matches!(
        process_realtime_event("whatever", Some("aGk=")),
        RealtimeStep::Continue
    ));
}
