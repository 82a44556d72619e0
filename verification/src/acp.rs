//! What the interface and the agent client say to each other, and the
//! decisions of the client's command loop.

use vstd::prelude::*;

verus! {

/// A stored session as the agent lists it.
#[derive(Debug, Clone)]
pub struct SessionInfo {
    pub id: String,
    pub title: String,
    pub updated_at: String,
}

/// A model provider as the agent lists it.
#[derive(Debug, Clone)]
pub struct ProviderInfo {
    pub id: String,
    pub name: String,
    pub configured: bool,
    pub description: String,
    pub models: Vec<String>,
}

/// An extension as the agent lists it.
#[derive(Debug, Clone)]
pub struct ExtensionInfo {
    pub name: String,
    pub enabled: bool,
    pub ext_type: String,
}

/// What the agent client reports to the interface.
#[derive(Debug, Clone)]
pub enum AgentMessage {
    TextChunk(String),
    ToolCallStarted { title: String, id: String },
    ToolCallUpdate { id: String, status: String },
    ResponseComplete,
    Error(String),
    SessionCreated(String),
    SessionsList(Vec<SessionInfo>),
    ProvidersList(Vec<ProviderInfo>),
    ExtensionsList(Vec<ExtensionInfo>),
    Initialized,
}

/// What the interface asks of the agent client.
#[derive(Debug, Clone)]
pub enum ClientCommand {
    Initialize,
    CreateSession,
    SendPrompt(String),
    ListSessions,
    ListProviders,
    ListExtensions,
    SaveDefaults { provider: String, model: String },
    ToggleExtension { key: String, enabled: bool },
    Shutdown,
}

/// Where the client's command loop stands.
#[derive(Debug, Clone, Copy, PartialEq, Eq, Structural)]
pub enum LoopPhase {
    /// Nothing has happened yet: every command but `Initialize` is dropped.
    AwaitingInit,
    /// The connection is initialized and no session is open.
    Ready,
    /// A session is open and takes prompts.
    InSession,
}

/// What the command loop does with a command.
#[derive(Debug, Clone)]
pub enum LoopAction {
    /// Drop the command.
    Ignore,
    /// Send the protocol's initialize request, then report `Initialized`.
    Initialize,
    /// Report `Initialized` again.
    ReplyInitialized,
    /// Report `SessionCreated` and open a session.
    StartSession,
    /// Send the prompt in the open session, read the reply, report
    /// `ResponseComplete`.
    Prompt(String),
    /// Leave the open session.
    EndSession,
    /// Send the request that the command stands for (one of `ListSessions`,
    /// `ListProviders`, `ListExtensions`, `SaveDefaults`, `ToggleExtension`).
    Request(ClientCommand),
    /// Stop the loop.
    Stop,
}

/// The command turns into a request to the agent.
pub open spec fn is_request(cmd: ClientCommand) -> bool {
    ||| cmd is ListSessions
    ||| cmd is ListProviders
    ||| cmd is ListExtensions
    ||| cmd is SaveDefaults
    ||| cmd is ToggleExtension
}

/// The phase after `cmd` arrives in `phase`.
pub open spec fn next_phase(phase: LoopPhase, cmd: ClientCommand) -> LoopPhase {
    match phase {
        LoopPhase::AwaitingInit => if cmd is Initialize {
            LoopPhase::Ready
        } else {
            LoopPhase::AwaitingInit
        },
        LoopPhase::Ready => if cmd is CreateSession {
            LoopPhase::InSession
        } else {
            LoopPhase::Ready
        },
        LoopPhase::InSession => if cmd is Shutdown || cmd is CreateSession {
            LoopPhase::Ready
        } else {
            LoopPhase::InSession
        },
    }
}

/// The action taken when `cmd` arrives in `phase` (the command itself is
/// carried by `Prompt` and `Request`).
pub open spec fn action_matches(phase: LoopPhase, cmd: ClientCommand, act: LoopAction) -> bool {
    match phase {
        LoopPhase::AwaitingInit => if cmd is Initialize {
            act is Initialize
        } else {
            act is Ignore
        },
        LoopPhase::Ready => match cmd {
            ClientCommand::CreateSession => act is StartSession,
            ClientCommand::Shutdown => act is Stop,
            ClientCommand::Initialize => act is ReplyInitialized,
            _ => if is_request(cmd) {
                act == LoopAction::Request(cmd)
            } else {
                act is Ignore
            },
        },
        LoopPhase::InSession => match cmd {
            ClientCommand::SendPrompt(p) => act == LoopAction::Prompt(p),
            ClientCommand::Shutdown => act is EndSession,
            ClientCommand::CreateSession => act is EndSession,
            _ => if is_request(cmd) {
                act == LoopAction::Request(cmd)
            } else {
                act is Ignore
            },
        },
    }
}

/// The decisions of the client's command loop: it waits for `Initialize`,
/// then serves commands; `CreateSession` opens a session in which prompts
/// are sent, and which `Shutdown` or another `CreateSession` closes.
pub struct CommandLoop {
    pub phase: LoopPhase,
}

impl CommandLoop {
    pub fn new() -> (l: Self)
        ensures
            l.phase == LoopPhase::AwaitingInit,
    {
        CommandLoop { phase: LoopPhase::AwaitingInit }
    }

    /// Takes one command and says what to do with it.
    pub fn step(&mut self, cmd: ClientCommand) -> (act: LoopAction)
        ensures
            final(self).phase == next_phase(old(self).phase, cmd),
            action_matches(old(self).phase, cmd, act),
    {
        match self.phase {
            LoopPhase::AwaitingInit => {
                if let ClientCommand::Initialize = cmd {
                    self.phase = LoopPhase::Ready;
                    LoopAction::Initialize
                } else {
                    LoopAction::Ignore
                }
            },
            LoopPhase::Ready => match cmd {
                ClientCommand::CreateSession => {
                    self.phase = LoopPhase::InSession;
                    LoopAction::StartSession
                },
                ClientCommand::Shutdown => LoopAction::Stop,
                ClientCommand::Initialize => LoopAction::ReplyInitialized,
                ClientCommand::SendPrompt(_) => LoopAction::Ignore,
                other => LoopAction::Request(other),
            },
            LoopPhase::InSession => match cmd {
                ClientCommand::SendPrompt(p) => LoopAction::Prompt(p),
                ClientCommand::Shutdown => {
                    self.phase = LoopPhase::Ready;
                    LoopAction::EndSession
                },
                ClientCommand::CreateSession => {
                    self.phase = LoopPhase::Ready;
                    LoopAction::EndSession
                },
                ClientCommand::Initialize => LoopAction::Ignore,
                other => LoopAction::Request(other),
            },
        }
    }
}

/// Prompts are only sent while a session is open.
pub proof fn law_prompt_only_in_session(phase: LoopPhase, cmd: ClientCommand, act: LoopAction)
    requires
        action_matches(phase, cmd, act),
        act is Prompt,
    ensures
        phase == LoopPhase::InSession,
        cmd is SendPrompt,
{
}

/// Before `Initialize` arrives, no command has any effect.
pub proof fn law_nothing_before_init(cmd: ClientCommand, act: LoopAction)
    requires
        action_matches(LoopPhase::AwaitingInit, cmd, act),
        !(cmd is Initialize),
    ensures
        act is Ignore,
        next_phase(LoopPhase::AwaitingInit, cmd) == LoopPhase::AwaitingInit,
{
}

/// `Shutdown` outside a session stops the loop; inside one it only leaves
/// the session, and the loop goes on serving commands.
pub proof fn law_shutdown(phase: LoopPhase, act: LoopAction)
    requires
        phase != LoopPhase::AwaitingInit,
        action_matches(phase, ClientCommand::Shutdown, act),
    ensures
        phase == LoopPhase::Ready ==> act is Stop,
        phase == LoopPhase::InSession ==> act is EndSession && next_phase(
            phase,
            ClientCommand::Shutdown,
        ) == LoopPhase::Ready,
{
}

/// The loop never goes back to waiting for `Initialize`.
pub proof fn law_initialized_stays(phase: LoopPhase, cmd: ClientCommand)
    requires
        phase != LoopPhase::AwaitingInit,
    ensures
        next_phase(phase, cmd) != LoopPhase::AwaitingInit,
{
}

/// Once initialized, the loop answers each request command — listing
/// sessions, providers or extensions, saving defaults, toggling an
/// extension — by sending that very request, whether or not a session is
/// open, and the phase stays as it was.
pub proof fn law_requests_served_in_any_phase(phase: LoopPhase, cmd: ClientCommand, act: LoopAction)
    requires
        phase != LoopPhase::AwaitingInit,
        cmd is ListSessions || cmd is ListProviders || cmd is ListExtensions || cmd is SaveDefaults
            || cmd is ToggleExtension,
        action_matches(phase, cmd, act),
    ensures
        act == LoopAction::Request(cmd),
        next_phase(phase, cmd) == phase,
{
}

/// The extension an entry of the agent's extension list describes: it needs
/// a `name` string and an `enabled` flag; a missing `type` reads `unknown`.
pub fn extension_from_fields(name: Option<String>, enabled: Option<bool>, ext_type: Option<String>) -> (e: Option<ExtensionInfo>)
    ensures
        e is Some <==> name is Some && enabled is Some,
        e matches Some(x) ==> x.name == name->0 && x.enabled == enabled->0 && (ext_type is Some ==> x.ext_type == ext_type->0) && (ext_type is None ==> x.ext_type@ == "unknown"@),
{
    match (name, enabled) {
        (Some(name), Some(enabled)) => {
            let ext_type = match ext_type {
                Some(t) => t,
                None => String::from_str("unknown"),
            };
            Some(ExtensionInfo { name, enabled, ext_type })
        },
        _ => None,
    }
}

/// A listed session; a missing title or update time reads as empty.
pub fn session_from_fields(id: String, title: Option<String>, updated_at: Option<String>) -> (s: SessionInfo)
    ensures
        s.id == id,
        title matches Some(t) ==> s.title == t,
        title is None ==> s.title@.len() == 0,
        updated_at matches Some(u) ==> s.updated_at == u,
        updated_at is None ==> s.updated_at@.len() == 0,
{
    let title = match title {
        Some(t) => t,
        None => String::new(),
    };
    let updated_at = match updated_at {
        Some(u) => u,
        None => String::new(),
    };
    SessionInfo { id, title, updated_at }
}

/// The option the client picks when the agent asks for permission: the
/// first one offered, or none, which cancels the request.
pub fn permission_choice(option_ids: Vec<String>) -> (choice: Option<String>)
    ensures
        option_ids@.len() == 0 ==> choice is None,
        option_ids@.len() > 0 ==> choice == Some(option_ids@[0]),
{
    let mut option_ids = option_ids;
    if option_ids.len() == 0 {
        None
    } else {
        Some(option_ids.remove(0))
    }
}

} // verus!
