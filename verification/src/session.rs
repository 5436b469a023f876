//! The per-client session state machine: one actor per connection, a
//! private state, and a pure dispatch from each inbound frame to the
//! outbound actions the connection layer performs.

use crate::json::{
    json_bool_field, json_is_doc, json_is_document, json_read_bool_field, json_read_string_field,
    json_string_field,
};
use crate::params::SimulationMode;
use vstd::prelude::*;

verus! {

/// String equality on slices, visible to specifications through the views.
pub fn str_eq(a: &str, b: &str) -> (r: bool)
    ensures
        r == (a@ == b@),
{
    let ao: String = a.to_owned();
    let bo: String = b.to_owned();
    ao.eq(&bo)
}

/// The recognized values of a control message's `type` field.
#[derive(Debug, Clone, Copy, PartialEq, Eq, Structural)]
pub enum MessageKind {
    InitialData,
    SimulationMode,
    Layout,
    Fisheye,
    Chat,
    Unknown,
}

/// The kind a `type` string names; anything unrecognized is `Unknown`.
pub open spec fn spec_classify_message_type(t: Seq<char>) -> MessageKind {
    if t == "initial_data"@ {
        MessageKind::InitialData
    } else if t == "simulation_mode"@ {
        MessageKind::SimulationMode
    } else if t == "layout"@ {
        MessageKind::Layout
    } else if t == "fisheye"@ {
        MessageKind::Fisheye
    } else if t == "chat"@ {
        MessageKind::Chat
    } else {
        MessageKind::Unknown
    }
}

/// Classifies a control message's `type` field.
pub fn classify_message_type(t: &str) -> (r: MessageKind)
    ensures
        r == spec_classify_message_type(t@),
{
    if str_eq(t, "initial_data") {
        MessageKind::InitialData
    } else if str_eq(t, "simulation_mode") {
        MessageKind::SimulationMode
    } else if str_eq(t, "layout") {
        MessageKind::Layout
    } else if str_eq(t, "fisheye") {
        MessageKind::Fisheye
    } else if str_eq(t, "chat") {
        MessageKind::Chat
    } else {
        MessageKind::Unknown
    }
}

/// The simulation mode a mode string names; anything else falls back to
/// `Remote`, and only the three known names count as recognized.
pub open spec fn spec_parse_simulation_mode(m: Seq<char>) -> (SimulationMode, bool) {
    if m == "remote"@ {
        (SimulationMode::Remote, true)
    } else if m == "gpu"@ {
        (SimulationMode::GPU, true)
    } else if m == "local"@ {
        (SimulationMode::Local, true)
    } else {
        (SimulationMode::Remote, false)
    }
}

/// Parses a mode string; the second component says whether it was one of
/// the three known names.
pub fn parse_simulation_mode(m: &str) -> (r: (SimulationMode, bool))
    ensures
        r == spec_parse_simulation_mode(m@),
{
    if str_eq(m, "remote") {
        (SimulationMode::Remote, true)
    } else if str_eq(m, "gpu") {
        (SimulationMode::GPU, true)
    } else if str_eq(m, "local") {
        (SimulationMode::Local, true)
    } else {
        (SimulationMode::Remote, false)
    }
}

/// An inbound control message after JSON decoding.
#[derive(Debug)]
pub enum ClientMessage {
    /// Ask for the full graph and settings snapshot.
    InitialData,
    /// Switch the simulation mode.
    SimulationMode { mode: String },
    /// Run layout steps; the parameters carry floats and are decoded at
    /// the connection layer.
    Layout,
    /// Update the fisheye lens; its parameters carry floats and are
    /// decoded at the connection layer.
    Fisheye,
    /// Relay a chat message to the upstream collaborator.
    Chat { message: String, use_openai: bool },
    /// A recognized type whose payload is missing or unusable: dropped,
    /// as the dispatcher drops it.
    Incomplete,
    /// A JSON document without a recognized string `type`.
    Unknown,
    /// Not a JSON document at all: dropped.
    Invalid,
}

/// The five protocol type strings classify to their own kinds.
proof fn lemma_type_literals()
    ensures
        spec_classify_message_type("initial_data"@) == MessageKind::InitialData,
        spec_classify_message_type("simulation_mode"@) == MessageKind::SimulationMode,
        spec_classify_message_type("layout"@) == MessageKind::Layout,
        spec_classify_message_type("fisheye"@) == MessageKind::Fisheye,
        spec_classify_message_type("chat"@) == MessageKind::Chat,
{
    reveal_strlit("initial_data");
    reveal_strlit("simulation_mode");
    reveal_strlit("layout");
    reveal_strlit("fisheye");
    reveal_strlit("chat");
    assert("initial_data"@.len() == 12);
    assert("simulation_mode"@.len() == 15);
    assert("layout"@.len() == 6);
    assert("fisheye"@.len() == 7);
    assert("chat"@.len() == 4);
}

/// Decodes one inbound text frame into the message it carries, stated
/// exactly over the named JSON reads of the raw text: a text that is no
/// document is dropped; a document without a string `type` or with an
/// unrecognized one takes the unknown path; mode and chat payloads carry
/// exactly their fields, with a missing payload dropped and a missing
/// `useOpenAI` defaulting to false.
pub fn parse_client_message(text: &str) -> (r: ClientMessage)
    ensures
        match r {
            ClientMessage::Invalid => !json_is_doc(text@),
            ClientMessage::Unknown => json_is_doc(text@) && match json_string_field(
                text@,
                "type"@,
            ) {
                None => true,
                Some(ty) => spec_classify_message_type(ty) == MessageKind::Unknown,
            },
            ClientMessage::InitialData => json_is_doc(text@) && json_string_field(text@, "type"@)
                == Some("initial_data"@),
            ClientMessage::Layout => json_is_doc(text@) && json_string_field(text@, "type"@)
                == Some("layout"@),
            ClientMessage::Fisheye => json_is_doc(text@) && json_string_field(text@, "type"@)
                == Some("fisheye"@),
            ClientMessage::SimulationMode { mode } => json_is_doc(text@) && json_string_field(
                text@,
                "type"@,
            ) == Some("simulation_mode"@) && json_string_field(text@, "mode"@) == Some(mode@),
            ClientMessage::Chat { message, use_openai } => json_is_doc(text@)
                && json_string_field(text@, "type"@) == Some("chat"@) && json_string_field(
                text@,
                "message"@,
            ) == Some(message@) && use_openai == (match json_bool_field(text@, "useOpenAI"@) {
                Some(b) => b,
                None => false,
            }),
            ClientMessage::Incomplete => json_is_doc(text@) && ((json_string_field(text@, "type"@)
                == Some("simulation_mode"@) && json_string_field(text@, "mode"@) is None) || (
            json_string_field(text@, "type"@) == Some("chat"@) && json_string_field(
                text@,
                "message"@,
            ) is None)),
        },
{
    if !json_is_document(text) {
        return ClientMessage::Invalid;
    }
    let ty = match json_read_string_field(text, "type") {
        Some(t) => t,
        None => {
            return ClientMessage::Unknown;
        },
    };
    match classify_message_type(ty.as_str()) {
        MessageKind::InitialData => ClientMessage::InitialData,
        MessageKind::SimulationMode => {
            match json_read_string_field(text, "mode") {
                Some(mode) => ClientMessage::SimulationMode { mode },
                None => ClientMessage::Incomplete,
            }
        },
        MessageKind::Layout => ClientMessage::Layout,
        MessageKind::Fisheye => ClientMessage::Fisheye,
        MessageKind::Chat => {
            match json_read_string_field(text, "message") {
                Some(message) => {
                    let use_openai = match json_read_bool_field(text, "useOpenAI") {
                        Some(b) => b,
                        None => false,
                    };
                    ClientMessage::Chat { message, use_openai }
                },
                None => ClientMessage::Incomplete,
            }
        },
        MessageKind::Unknown => ClientMessage::Unknown,
    }
}

/// One outbound control message; high-volume position data travels as
/// binary frames instead, and the snapshot payloads are serialized at the
/// connection layer from the service state.
#[derive(Debug)]
pub enum ServerMessage {
    SimulationModeSet { mode: String, gpu_enabled: bool },
    FisheyeSettingsUpdated {
        enabled: bool,
        strength: u32,
        focus_point: [u32; 3],
        radius: u32,
    },
    Completion { message: String },
    Error { message: String, code: Option<String> },
}

/// What the connection layer must do after one inbound frame, in order.
#[derive(Debug)]
pub enum SessionAction {
    /// Answer a ping with its payload.
    ReplyPong(Vec<u8>),
    /// Serialize and send one control message as a text frame.
    SendText(ServerMessage),
    /// Send the graph and settings snapshot, then a completion.
    SendInitialData,
    /// Begin the periodic tick that broadcasts packed positions.
    StartGpuUpdates,
    /// Decode the layout parameters from the frame and drive the executor.
    RunLayout,
    /// Decode the fisheye parameters from the frame and apply them.
    RunFisheye,
    /// Relay the chat message upstream, optionally through speech.
    RunChat { message: String, use_openai: bool },
    /// Acknowledge the close handshake.
    CloseAck,
    /// Stop the actor.
    Stop,
}

/// One inbound socket frame, as the connection layer hands it over.
#[derive(Debug)]
pub enum InboundFrame {
    Ping(Vec<u8>),
    Pong,
    Text(String),
    Binary(Vec<u8>),
    Close,
}

/// The per-connection state.
#[derive(Debug)]
pub struct WebSocketSession {
    /// How speech is synthesized for this client.
    pub tts_method: String,
    pub simulation_mode: SimulationMode,
    /// Whether the parallel executor is up, so ticks can be scheduled.
    pub gpu_available: bool,
    /// The conversation cell: present from the start, filled on first use.
    pub conversation_id: Option<Option<String>>,
}

impl WebSocketSession {
    /// A fresh session: local speech, remote mode, an empty conversation
    /// cell.
    pub fn new(gpu_available: bool) -> (r: WebSocketSession)
        ensures
            r.tts_method@ == "local"@,
            r.simulation_mode == SimulationMode::Remote,
            r.gpu_available == gpu_available,
            r.conversation_id == Some(None::<String>),
    {
        WebSocketSession {
            tts_method: "local".to_owned(),
            simulation_mode: SimulationMode::Remote,
            gpu_available,
            conversation_id: Some(None),
        }
    }

    /// Dispatches one decoded control message: the next actions, in order.
    /// An unknown type draws exactly one outbound error frame with the
    /// stable code and stops nothing; unusable payloads are dropped.
    pub fn handle_text_message(&mut self, msg: ClientMessage) -> (r: Vec<SessionAction>)
        ensures
            final(self).tts_method == old(self).tts_method,
            final(self).gpu_available == old(self).gpu_available,
            final(self).conversation_id == old(self).conversation_id,
            forall|i: int| 0 <= i < r@.len() ==> !((#[trigger] r@[i]) is Stop),
            match msg {
                ClientMessage::InitialData => {
                    &&& final(self).simulation_mode == SimulationMode::Remote
                    &&& if old(self).gpu_available {
                        r@.len() == 2 && r@[0] is SendInitialData && r@[1] is StartGpuUpdates
                    } else {
                        r@.len() == 1 && r@[0] is SendInitialData
                    }
                },
                ClientMessage::SimulationMode { mode } => {
                    let parsed = spec_parse_simulation_mode(mode@);
                    &&& final(self).simulation_mode == parsed.0
                    &&& if parsed.0 == SimulationMode::Remote && old(self).gpu_available {
                        &&& r@.len() == 2
                        &&& r@[0] is StartGpuUpdates
                        &&& spec_is_mode_set_reply(r@[1], mode@, parsed.0)
                    } else {
                        r@.len() == 1 && spec_is_mode_set_reply(r@[0], mode@, parsed.0)
                    }
                },
                ClientMessage::Layout => r@.len() == 1 && r@[0] is RunLayout && final(self).simulation_mode == old(self).simulation_mode,
                ClientMessage::Fisheye => r@.len() == 1 && r@[0] is RunFisheye && final(self).simulation_mode == old(self).simulation_mode,
                ClientMessage::Chat { message, use_openai } => {
                    &&& r@.len() == 1
                    &&& r@[0] matches SessionAction::RunChat { message: m, use_openai: u } && (m@
                        == message@ && u == use_openai)
                    &&& final(self).simulation_mode == old(self).simulation_mode
                },
                ClientMessage::Incomplete => r@.len() == 0 && final(self).simulation_mode == old(self).simulation_mode,
                ClientMessage::Invalid => r@.len() == 0 && final(self).simulation_mode == old(self).simulation_mode,
                ClientMessage::Unknown => {
                    &&& r@.len() == 1
                    &&& spec_is_unknown_type_error(r@[0])
                    &&& final(self).simulation_mode == old(self).simulation_mode
                },
            },
    {
        let mut r: Vec<SessionAction> = Vec::new();
        match msg {
            ClientMessage::InitialData => {
                self.simulation_mode = SimulationMode::Remote;
                r.push(SessionAction::SendInitialData);
                if self.gpu_available {
                    r.push(SessionAction::StartGpuUpdates);
                }
            },
            ClientMessage::SimulationMode { mode } => {
                let (parsed, _known) = parse_simulation_mode(mode.as_str());
                self.simulation_mode = parsed;
                let gpu_enabled = match parsed {
                    SimulationMode::Remote => true,
                    SimulationMode::GPU => true,
                    SimulationMode::Local => false,
                };
                if matches!(parsed, SimulationMode::Remote) && self.gpu_available {
                    r.push(SessionAction::StartGpuUpdates);
                }
                r.push(
                    SessionAction::SendText(ServerMessage::SimulationModeSet { mode, gpu_enabled }),
                );
            },
            ClientMessage::Layout => {
                r.push(SessionAction::RunLayout);
            },
            ClientMessage::Fisheye => {
                r.push(SessionAction::RunFisheye);
            },
            ClientMessage::Chat { message, use_openai } => {
                r.push(SessionAction::RunChat { message, use_openai });
            },
            ClientMessage::Incomplete => {},
            ClientMessage::Invalid => {},
            ClientMessage::Unknown => {
                r.push(
                    SessionAction::SendText(
                        ServerMessage::Error {
                            message: "Unknown message type".to_owned(),
                            code: Some("UNKNOWN_MESSAGE_TYPE".to_owned()),
                        },
                    ),
                );
            },
        }
        r
    }

    /// Dispatches one inbound frame. Control frames are answered in
    /// place; text frames are decoded and dispatched exactly as the named
    /// JSON reads of the raw text say; only the close handshake stops the
    /// actor.
    pub fn handle(&mut self, frame: InboundFrame) -> (r: Vec<SessionAction>)
        ensures
            final(self).tts_method == old(self).tts_method,
            final(self).gpu_available == old(self).gpu_available,
            final(self).conversation_id == old(self).conversation_id,
            match frame {
                InboundFrame::Ping(p) => r@.len() == 1 && (r@[0] matches SessionAction::ReplyPong(
                    q,
                ) && (q@ == p@)) && *final(self) == *old(self),
                InboundFrame::Pong => r@.len() == 0 && *final(self) == *old(self),
                InboundFrame::Binary(_) => r@.len() == 0 && *final(self) == *old(self),
                InboundFrame::Close => r@.len() == 2 && r@[0] is CloseAck && r@[1] is Stop,
                InboundFrame::Text(t) => {
                    &&& forall|i: int| 0 <= i < r@.len() ==> !((#[trigger] r@[i]) is Stop)
                    &&& if !json_is_doc(t@) {
                        r@.len() == 0 && final(self).simulation_mode == old(self).simulation_mode
                    } else {
                        match json_string_field(t@, "type"@) {
                            None => r@.len() == 1 && spec_is_unknown_type_error(r@[0]) && final(self).simulation_mode == old(self).simulation_mode,
                            Some(ty) => match spec_classify_message_type(ty) {
                                MessageKind::InitialData => {
                                    &&& final(self).simulation_mode == SimulationMode::Remote
                                    &&& if old(self).gpu_available {
                                        r@.len() == 2 && r@[0] is SendInitialData && r@[1]
                                            is StartGpuUpdates
                                    } else {
                                        r@.len() == 1 && r@[0] is SendInitialData
                                    }
                                },
                                MessageKind::SimulationMode => match json_string_field(
                                    t@,
                                    "mode"@,
                                ) {
                                    None => r@.len() == 0 && final(self).simulation_mode == old(self).simulation_mode,
                                    Some(m) => {
                                        let parsed = spec_parse_simulation_mode(m);
                                        &&& final(self).simulation_mode == parsed.0
                                        &&& if parsed.0 == SimulationMode::Remote && old(self).gpu_available {
                                            &&& r@.len() == 2
                                            &&& r@[0] is StartGpuUpdates
                                            &&& spec_is_mode_set_reply(r@[1], m, parsed.0)
                                        } else {
                                            r@.len() == 1 && spec_is_mode_set_reply(
                                                r@[0],
                                                m,
                                                parsed.0,
                                            )
                                        }
                                    },
                                },
                                MessageKind::Layout => r@.len() == 1 && r@[0] is RunLayout
                                    && final(self).simulation_mode == old(self).simulation_mode,
                                MessageKind::Fisheye => r@.len() == 1 && r@[0] is RunFisheye
                                    && final(self).simulation_mode == old(self).simulation_mode,
                                MessageKind::Chat => match json_string_field(t@, "message"@) {
                                    None => r@.len() == 0 && final(self).simulation_mode == old(self).simulation_mode,
                                    Some(msg) => {
                                        &&& r@.len() == 1
                                        &&& (r@[0] matches SessionAction::RunChat {
                                            message: mm,
                                            use_openai: u,
                                        } && (mm@ == msg && u == (match json_bool_field(
                                            t@,
                                            "useOpenAI"@,
                                        ) {
                                            Some(b) => b,
                                            None => false,
                                        })))
                                        &&& final(self).simulation_mode == old(self).simulation_mode
                                    },
                                },
                                MessageKind::Unknown => r@.len() == 1 && spec_is_unknown_type_error(r@[0]) && final(self).simulation_mode == old(self).simulation_mode,
                            },
                        }
                    }
                },
            },
    {
        match frame {
            InboundFrame::Ping(p) => {
                let mut r: Vec<SessionAction> = Vec::new();
                r.push(SessionAction::ReplyPong(p));
                r
            },
            InboundFrame::Pong => Vec::new(),
            InboundFrame::Binary(_) => Vec::new(),
            InboundFrame::Close => {
                let mut r: Vec<SessionAction> = Vec::new();
                r.push(SessionAction::CloseAck);
                r.push(SessionAction::Stop);
                r
            },
            InboundFrame::Text(t) => {
                let msg = parse_client_message(t.as_str());
                let ghost gmsg = msg;
                let r = self.handle_text_message(msg);
                proof {
                    lemma_type_literals();
                    match gmsg {
                        ClientMessage::Invalid => {
                            assert(!json_is_doc(t@));
                        },
                        ClientMessage::Unknown => {
                            assert(json_is_doc(t@));
                            assert(r@.len() == 1 && spec_is_unknown_type_error(r@[0]));
                        },
                        ClientMessage::InitialData => {
                            assert(json_string_field(t@, "type"@) == Some("initial_data"@));
                        },
                        ClientMessage::Layout => {
                            assert(json_string_field(t@, "type"@) == Some("layout"@));
                        },
                        ClientMessage::Fisheye => {
                            assert(json_string_field(t@, "type"@) == Some("fisheye"@));
                        },
                        ClientMessage::SimulationMode { mode } => {
                            assert(json_string_field(t@, "type"@) == Some("simulation_mode"@));
                            assert(json_string_field(t@, "mode"@) == Some(mode@));
                        },
                        ClientMessage::Chat { message, use_openai } => {
                            assert(json_string_field(t@, "type"@) == Some("chat"@));
                            assert(json_string_field(t@, "message"@) == Some(message@));
                        },
                        ClientMessage::Incomplete => {
                            assert(r@.len() == 0);
                        },
                    }
                }
                r
            },
        }
    }
}

/// Whether an action is the mode-set reply that echoes the mode string.
pub open spec fn spec_is_mode_set_reply(
    a: SessionAction,
    mode: Seq<char>,
    parsed: SimulationMode,
) -> bool {
    a matches SessionAction::SendText(ServerMessage::SimulationModeSet { mode: m, gpu_enabled })
        && (m@ == mode && gpu_enabled == (parsed != SimulationMode::Local))
}

/// Whether an action is the single error frame for an unknown type, with
/// its stable code.
pub open spec fn spec_is_unknown_type_error(a: SessionAction) -> bool {
    a matches SessionAction::SendText(ServerMessage::Error { message, code }) && (message@
        == "Unknown message type"@ && (code matches Some(c) && c@ == "UNKNOWN_MESSAGE_TYPE"@))
}

/// The lens reply echoes exactly the lens parameters that were applied.
pub fn fisheye_response(enabled: bool, strength: u32, focus_point: [u32; 3], radius: u32) -> (r:
    ServerMessage)
    ensures
        r matches ServerMessage::FisheyeSettingsUpdated {
            enabled: e,
            strength: s,
            focus_point: f,
            radius: rr,
        } && (e == enabled && s == strength && f == focus_point && rr == radius),
{
    ServerMessage::FisheyeSettingsUpdated { enabled, strength, focus_point, radius }
}

/// How a chat request resolves its conversation: the cell may be absent
/// (refused), empty (a conversation must be created upstream first), or
/// filled (reuse the id).
#[derive(Debug)]
pub enum ConversationStep {
    /// No conversation cell at all: the request is refused.
    MissingCell,
    /// The cell is present but empty: ask upstream for a fresh id.
    CreateConversation,
    /// Reuse the stored conversation id.
    UseExisting(String),
}

impl WebSocketSession {
    /// Decides how the next chat request finds its conversation.
    pub fn conversation_step(&self) -> (r: ConversationStep)
        ensures
            match self.conversation_id {
                None => r is MissingCell,
                Some(inner) => match inner {
                    None => r is CreateConversation,
                    Some(id) => r matches ConversationStep::UseExisting(s) && s@ == id@,
                },
            },
    {
        match &self.conversation_id {
            None => ConversationStep::MissingCell,
            Some(inner) => match inner {
                None => ConversationStep::CreateConversation,
                Some(id) => ConversationStep::UseExisting(id.clone()),
            },
        }
    }

    /// Stores the conversation id a created conversation came back with;
    /// later chat requests reuse it.
    pub fn set_conversation_id(&mut self, id: String)
        ensures
            final(self).conversation_id matches Some(inner) && (inner matches Some(s) && s@
                == id@),
            final(self).tts_method == old(self).tts_method,
            final(self).simulation_mode == old(self).simulation_mode,
            final(self).gpu_available == old(self).gpu_available,
    {
        self.conversation_id = Some(Some(id));
    }
}

} // verus!
