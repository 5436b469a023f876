//! The speech relay's decision core: which provider a command targets,
//! what one queued command makes the relay loop do, and how a realtime
//! audio event is decoded. The sockets, channels and processes that carry
//! these decisions out live outside the verified core.

use vstd::prelude::*;

verus! {

/// How speech is synthesized.
#[derive(Debug, Clone, Copy, PartialEq, Eq, Structural)]
pub enum TTSProvider {
    /// The local synthesizer.
    Sonata,
    /// The realtime API of the upstream collaborator.
    OpenAI,
}

/// One command queued to the speech relay.
#[derive(Debug)]
pub enum SpeechCommand {
    Initialize,
    SendMessage(String),
    Close,
    SetTTSProvider(TTSProvider),
}

/// The provider a client's switch selects.
pub fn provider_for(use_openai: bool) -> (r: TTSProvider)
    ensures
        r == if use_openai {
            TTSProvider::OpenAI
        } else {
            TTSProvider::Sonata
        },
{
    if use_openai {
        TTSProvider::OpenAI
    } else {
        TTSProvider::Sonata
    }
}

/// What the relay loop does with one command under the current provider.
#[derive(Debug)]
pub enum SpeechEffect {
    /// Open the realtime socket and send the opening event.
    ConnectUpstream,
    /// Send the message over the realtime socket and read the response.
    SendUpstream(String),
    /// Pipe the message through the local synthesizer.
    RunLocalTts(String),
    /// Send the close frame and end the loop.
    CloseStream,
    /// Switch the provider.
    SetProvider(TTSProvider),
    /// Nothing to do.
    Nothing,
}

/// The relay loop's decision for one command: initialization only touches
/// the upstream provider, a message goes to whichever provider is current,
/// closing ends the loop, and a provider switch is recorded.
pub fn speech_step(provider: TTSProvider, command: SpeechCommand) -> (r: SpeechEffect)
    ensures
        match command {
            SpeechCommand::Initialize => r == if provider == TTSProvider::OpenAI {
                SpeechEffect::ConnectUpstream
            } else {
                SpeechEffect::Nothing
            },
            SpeechCommand::SendMessage(m) => match r {
                SpeechEffect::SendUpstream(s) => provider == TTSProvider::OpenAI && s@ == m@,
                SpeechEffect::RunLocalTts(s) => provider == TTSProvider::Sonata && s@ == m@,
                _ => false,
            },
            SpeechCommand::Close => r == SpeechEffect::CloseStream,
            SpeechCommand::SetTTSProvider(p) => r == SpeechEffect::SetProvider(p),
        },
{
    match command {
        SpeechCommand::Initialize => {
            if matches!(provider, TTSProvider::OpenAI) {
                SpeechEffect::ConnectUpstream
            } else {
                SpeechEffect::Nothing
            }
        },
        SpeechCommand::SendMessage(m) => {
            if matches!(provider, TTSProvider::OpenAI) {
                SpeechEffect::SendUpstream(m)
            } else {
                SpeechEffect::RunLocalTts(m)
            }
        },
        SpeechCommand::Close => SpeechEffect::CloseStream,
        SpeechCommand::SetTTSProvider(p) => SpeechEffect::SetProvider(p),
    }
}

/// The kinds of realtime events the relay reads while waiting for audio.
#[derive(Debug, Clone, Copy, PartialEq, Eq, Structural)]
pub enum RealtimeEventKind {
    /// A conversation item was created; it may carry audio.
    ItemCreated,
    /// The collaborator reported an error.
    ApiError,
    /// The response finished.
    ResponseCompleted,
    /// Anything else, skipped.
    Other,
}

/// The kind an event's type string names.
pub open spec fn spec_classify_realtime_event(t: Seq<char>) -> RealtimeEventKind {
    if t == "conversation.item.created"@ {
        RealtimeEventKind::ItemCreated
    } else if t == "error"@ {
        RealtimeEventKind::ApiError
    } else if t == "response.completed"@ {
        RealtimeEventKind::ResponseCompleted
    } else {
        RealtimeEventKind::Other
    }
}

/// Classifies a realtime event's type string.
pub fn classify_realtime_event(t: &str) -> (r: RealtimeEventKind)
    ensures
        r == spec_classify_realtime_event(t@),
{
    if crate::session::str_eq(t, "conversation.item.created") {
        RealtimeEventKind::ItemCreated
    } else if crate::session::str_eq(t, "error") {
        RealtimeEventKind::ApiError
    } else if crate::session::str_eq(t, "response.completed") {
        RealtimeEventKind::ResponseCompleted
    } else {
        RealtimeEventKind::Other
    }
}

/// What standard base64 decoding yields for a text, if it decodes at all:
/// a function of the characters alone.
pub uninterp spec fn base64_decoded(s: Seq<char>) -> Option<Seq<u8>>;

/// Relies on base64::Engine::decode with the standard alphabet: the bytes
/// a text decodes to, or nothing when it is not valid base64; the outcome
/// depends on the characters alone.
#[verifier::external_body]
fn base64_decode(s: &str) -> (r: Option<Vec<u8>>)
    ensures
        match (r, base64_decoded(s@)) {
            (Some(v), Some(d)) => v@ == d,
            (None, None) => true,
            _ => false,
        },
{
    base64::Engine::decode(&base64::engine::general_purpose::STANDARD, s).ok()
}

/// What the relay does after one realtime event.
#[derive(Debug)]
pub enum RealtimeStep {
    /// Audio arrived and decoded to these bytes.
    Audio(Vec<u8>),
    /// An audio payload arrived but was not valid base64.
    DecodeFailed,
    /// Keep reading events.
    Continue,
    /// Stop reading: the response ended or the collaborator failed.
    Stop,
}

/// Processes one realtime event: errors and completion stop the read
/// loop; a created item's audio payload is base64-decoded; everything
/// else is skipped.
pub fn process_realtime_event(event_type: &str, audio_payload: Option<&str>) -> (r: RealtimeStep)
    ensures
        match spec_classify_realtime_event(event_type@) {
            RealtimeEventKind::ApiError => r is Stop,
            RealtimeEventKind::ResponseCompleted => r is Stop,
            RealtimeEventKind::Other => r is Continue,
            RealtimeEventKind::ItemCreated => match audio_payload {
                None => r is Continue,
                Some(p) => match base64_decoded(p@) {
                    Some(d) => r matches RealtimeStep::Audio(b) && b@ == d,
                    None => r is DecodeFailed,
                },
            },
        },
{
    match classify_realtime_event(event_type) {
        RealtimeEventKind::ApiError => RealtimeStep::Stop,
        RealtimeEventKind::ResponseCompleted => RealtimeStep::Stop,
        RealtimeEventKind::Other => RealtimeStep::Continue,
        RealtimeEventKind::ItemCreated => {
            match audio_payload {
                None => RealtimeStep::Continue,
                Some(p) => match base64_decode(p) {
                    Some(b) => RealtimeStep::Audio(b),
                    None => RealtimeStep::DecodeFailed,
                },
            }
        },
    }
}

} // verus!
