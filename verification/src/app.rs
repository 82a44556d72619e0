//! The application: which view is shown, and how keys and the agent's
//! messages change the state. Each handler returns the commands to send to
//! the agent client, in order.

use vstd::prelude::*;
use crate::acp::{AgentMessage, ClientCommand, ExtensionInfo, ProviderInfo};
use crate::chat::{
    ed_backspace, ed_delete, ed_end, ed_home, ed_insert, ed_left, ed_right, finalized, is_fresh,
    pushed, ChatMessage, ChatState, Editor, MessageRole, ToolCallDisplay,
};
use crate::markdown::{copy_range, find_in, is_whitespace, is_ws, until};
use crate::text::{chars_of, str_byte_len, string_from_chars, string_pop, string_push, utf8_len};
use crate::views::{moved_down, moved_up, ExtensionsState, OnboardingState, SessionsState};

verus! {

/// The screen being shown.
#[derive(Debug, Clone, Copy, PartialEq, Eq, Structural)]
pub enum AppView {
    Splash,
    Onboarding,
    Chat,
    Sessions,
    Extensions,
}

/// A key as the handlers tell keys apart.
#[derive(Debug, Clone, Copy, PartialEq, Eq, Structural)]
pub enum KeyCode {
    Enter,
    Char(char),
    Backspace,
    Delete,
    Left,
    Right,
    Home,
    End,
    Up,
    Down,
    Esc,
    Other,
}

/// Modifier keys, as bits of a `u8`.
pub struct Modifiers;

impl Modifiers {
    pub const NONE: u8 = 0b0000_0000;
    pub const SHIFT: u8 = 0b0000_0001;
    pub const CONTROL: u8 = 0b0000_0010;
    pub const ALT: u8 = 0b0000_0100;
}

/// The whole interface state.
pub struct App {
    pub view: AppView,
    pub tick: u64,
    pub chat: ChatState,
    pub onboarding: OnboardingState,
    pub sessions: SessionsState,
    pub extensions: ExtensionsState,
    pub should_quit: bool,
    pub session_active: bool,
}

/// The text `/help` shows.
pub open spec fn help_text() -> Seq<char> {
    "Available commands:\n  /sessions  - list and resume sessions\n  /extensions - manage extensions\n  /provider  - change provider/model\n  /clear     - clear chat history\n  /new       - start a new session\n  /quit      - exit goose"@
}

/// The chat's transcript besides its messages is the same in both states.
pub open spec fn chat_rest_same(pre: ChatState, post: ChatState) -> bool {
    &&& post.tool_calls@ == pre.tool_calls@
    &&& post.streaming_text@ == pre.streaming_text@
    &&& post.is_streaming == pre.is_streaming
}

/// The chat's input line is the same in both states.
pub open spec fn input_same(pre: ChatState, post: ChatState) -> bool {
    &&& post.input@ == pre.input@
    &&& post.input_cursor == pre.input_cursor
}

/// Everything but the chat is the same in both states.
pub open spec fn others_same(pre: App, post: App) -> bool {
    &&& post.view == pre.view
    &&& post.tick == pre.tick
    &&& post.onboarding == pre.onboarding
    &&& post.sessions == pre.sessions
    &&& post.extensions == pre.extensions
    &&& post.should_quit == pre.should_quit
    &&& post.session_active == pre.session_active
}

/// The chat's transcript is the same in both states.
pub open spec fn transcript_same(pre: ChatState, post: ChatState) -> bool {
    post.messages@ == pre.messages@ && chat_rest_same(pre, post)
}

/// The commands are exactly one, `CreateSession`.
pub open spec fn just_create_session(cmds: Seq<ClientCommand>) -> bool {
    cmds.len() == 1 && cmds[0] is CreateSession
}

/// The first word of a slash command: the command trimmed, up to its
/// first space.
pub open spec fn command_word(cmd: Seq<char>) -> Seq<char> {
    until(trim(cmd), ' ')
}

pub open spec fn trim_start(s: Seq<char>) -> Seq<char>
    decreases s.len(),
{
    if s.len() > 0 && is_ws(s[0]) {
        trim_start(s.drop_first())
    } else {
        s
    }
}

pub open spec fn trim_end(s: Seq<char>) -> Seq<char>
    decreases s.len(),
{
    if s.len() > 0 && is_ws(s.last()) {
        trim_end(s.drop_last())
    } else {
        s
    }
}

/// `s` without whitespace at either end, as `str::trim` gives it.
pub open spec fn trim(s: Seq<char>) -> Seq<char> {
    trim_end(trim_start(s))
}

/// What a slash command whose first word is `word` does to the state,
/// leaving aside the chat's input line.
pub open spec fn slash_outcome(pre: App, post: App, word: Seq<char>, cmds: Seq<ClientCommand>) -> bool {
    if word == "/help"@ {
        &&& others_same(pre, post)
        &&& chat_rest_same(pre.chat, post.chat)
        &&& pushed(pre.chat.messages@, post.chat.messages@, MessageRole::System, help_text())
        &&& cmds.len() == 0
    } else if word == "/sessions"@ {
        &&& others_same(pre, post)
        &&& transcript_same(pre.chat, post.chat)
        &&& cmds.len() == 1 && cmds[0] is ListSessions
    } else if word == "/extensions"@ {
        &&& others_same(pre, post)
        &&& transcript_same(pre.chat, post.chat)
        &&& cmds.len() == 1 && cmds[0] is ListExtensions
    } else if word == "/provider"@ {
        &&& others_same(App { view: AppView::Onboarding, ..pre }, post)
        &&& transcript_same(pre.chat, post.chat)
        &&& cmds.len() == 1 && cmds[0] is ListProviders
    } else if word == "/clear"@ {
        &&& others_same(pre, post)
        &&& chat_rest_same(pre.chat, post.chat)
        &&& pushed(Seq::empty(), post.chat.messages@, MessageRole::System, "Chat cleared."@)
        &&& cmds.len() == 0
    } else if word == "/new"@ {
        &&& others_same(pre, post)
        &&& is_fresh(post.chat)
        &&& just_create_session(cmds)
    } else if word == "/quit"@ {
        &&& others_same(App { should_quit: true, ..pre }, post)
        &&& transcript_same(pre.chat, post.chat)
        &&& cmds.len() == 0
    } else {
        &&& others_same(pre, post)
        &&& chat_rest_same(pre.chat, post.chat)
        &&& pushed(
            pre.chat.messages@,
            post.chat.messages@,
            MessageRole::System,
            "Unknown command: "@ + word + ". Type /help"@,
        )
        &&& cmds.len() == 0
    }
}

/// Position of the first tool call with id `id`, or the number of calls.
pub open spec fn tool_index(tcs: Seq<ToolCallDisplay>, id: Seq<char>) -> int
    decreases tcs.len(),
{
    if tcs.len() == 0 {
        0
    } else if tcs[0].id@ == id {
        0
    } else {
        1 + tool_index(tcs.drop_first(), id)
    }
}

proof fn lemma_tool_index_unique(tcs: Seq<ToolCallDisplay>, id: Seq<char>, k: int)
    requires
        0 <= k <= tcs.len(),
        forall|j: int| 0 <= j < k ==> tcs[j].id@ != id,
        k < tcs.len() ==> tcs[k].id@ == id,
    ensures
        tool_index(tcs, id) == k,
    decreases tcs.len(),
{
    if tcs.len() > 0 && k > 0 {
        assert(tcs[0].id@ != id);
        assert forall|j: int| 0 <= j < k - 1 implies tcs.drop_first()[j].id@ != id by {
            assert(tcs.drop_first()[j] == tcs[j + 1]);
        }
        lemma_tool_index_unique(tcs.drop_first(), id, k - 1);
    }
}

/// The tool calls after an update of the status of the call with id `id`:
/// the first such call takes the new status; without one nothing changes.
pub open spec fn updated_tools(tcs: Seq<ToolCallDisplay>, id: Seq<char>, status: String) -> Seq<ToolCallDisplay> {
    let j = tool_index(tcs, id);
    if j < tcs.len() {
        tcs.update(j, ToolCallDisplay { status, ..tcs[j] })
    } else {
        tcs
    }
}

/// Some listed provider is configured.
pub open spec fn any_configured(ps: Seq<ProviderInfo>) -> bool {
    exists|i: int| 0 <= i < ps.len() && #[trigger] ps[i].configured
}

/// What a message from the agent client does to the state.
pub open spec fn message_outcome(pre: App, post: App, msg: AgentMessage, cmds: Seq<ClientCommand>) -> bool {
    match msg {
        AgentMessage::Initialized => post == pre && cmds.len() == 1 && cmds[0] is ListProviders,
        AgentMessage::ProvidersList(ps) => {
            &&& post == App {
                onboarding: OnboardingState { providers: ps, ..pre.onboarding },
                view: if any_configured(ps@) { pre.view } else { AppView::Onboarding },
                ..pre
            }
            &&& any_configured(ps@) ==> just_create_session(cmds)
            &&& !any_configured(ps@) ==> cmds.len() == 0
        },
        AgentMessage::SessionCreated(_) => {
            &&& others_same(App { session_active: true, view: AppView::Chat, ..pre }, post)
            &&& chat_rest_same(pre.chat, post.chat)
            &&& input_same(pre.chat, post.chat)
            &&& pushed(
                pre.chat.messages@,
                post.chat.messages@,
                MessageRole::System,
                "Session started. How can I help?"@,
            )
            &&& cmds.len() == 0
        },
        AgentMessage::TextChunk(text) => {
            &&& others_same(pre, post)
            &&& post.chat.messages@ == pre.chat.messages@
            &&& post.chat.tool_calls@ == pre.chat.tool_calls@
            &&& post.chat.streaming_text@ == pre.chat.streaming_text@ + text@
            &&& post.chat.is_streaming
            &&& input_same(pre.chat, post.chat)
            &&& cmds.len() == 0
        },
        AgentMessage::ToolCallStarted { title, id } => {
            &&& others_same(pre, post)
            &&& post.chat.messages@ == pre.chat.messages@
            &&& post.chat.tool_calls@.len() == pre.chat.tool_calls@.len() + 1
            &&& post.chat.tool_calls@.take(pre.chat.tool_calls@.len() as int) == pre.chat.tool_calls@
            &&& post.chat.tool_calls@.last().title == title
            &&& post.chat.tool_calls@.last().id == id
            &&& post.chat.tool_calls@.last().status@ == "running"@
            &&& post.chat.streaming_text@ == pre.chat.streaming_text@
            &&& post.chat.is_streaming
            &&& input_same(pre.chat, post.chat)
            &&& cmds.len() == 0
        },
        AgentMessage::ToolCallUpdate { id, status } => {
            &&& others_same(pre, post)
            &&& post.chat.messages@ == pre.chat.messages@
            &&& post.chat.tool_calls@ == updated_tools(pre.chat.tool_calls@, id@, status)
            &&& post.chat.streaming_text@ == pre.chat.streaming_text@
            &&& post.chat.is_streaming == pre.chat.is_streaming
            &&& input_same(pre.chat, post.chat)
            &&& cmds.len() == 0
        },
        AgentMessage::ResponseComplete => {
            &&& others_same(pre, post)
            &&& finalized(pre.chat, post.chat)
            &&& cmds.len() == 0
        },
        AgentMessage::SessionsList(list) => {
            &&& post == App {
                sessions: SessionsState { sessions: list, ..pre.sessions },
                view: AppView::Sessions,
                ..pre
            }
            &&& cmds.len() == 0
        },
        AgentMessage::ExtensionsList(list) => {
            &&& post == App {
                extensions: ExtensionsState { extensions: list, ..pre.extensions },
                view: AppView::Extensions,
                ..pre
            }
            &&& cmds.len() == 0
        },
        AgentMessage::Error(err) => {
            &&& others_same(pre, post)
            &&& chat_rest_same(pre.chat, post.chat)
            &&& input_same(pre.chat, post.chat)
            &&& pushed(pre.chat.messages@, post.chat.messages@, MessageRole::System, "Error: "@ + err@)
            &&& cmds.len() == 0
        },
    }
}

/// Is `code` with `mods` the given character key with exactly the given
/// modifiers?
pub open spec fn is_key(code: KeyCode, mods: u8, c: char, want: u8) -> bool {
    code == KeyCode::Char(c) && mods == want
}

/// The input line after an edit, with all else the same.
pub open spec fn edited(pre: App, post: App, e: Editor, cmds: Seq<ClientCommand>) -> bool {
    &&& others_same(pre, post)
    &&& transcript_same(pre.chat, post.chat)
    &&& post.chat.editor() == e
    &&& cmds.len() == 0
}

/// What a key does in the chat view.
pub open spec fn chat_key_outcome(pre: App, post: App, code: KeyCode, mods: u8, cmds: Seq<ClientCommand>) -> bool {
    let e = pre.chat.editor();
    if code == KeyCode::Enter && mods == Modifiers::NONE {
        let s = pre.chat.input@;
        &&& post.chat.input@.len() == 0
        &&& post.chat.input_cursor == 0
        &&& if s.len() == 0 {
            others_same(pre, post) && transcript_same(pre.chat, post.chat) && cmds.len() == 0
        } else if s[0] == '/' {
            slash_outcome(pre, post, command_word(s), cmds)
        } else {
            &&& others_same(pre, post)
            &&& pushed(pre.chat.messages@, post.chat.messages@, MessageRole::User, s)
            &&& post.chat.tool_calls@ == pre.chat.tool_calls@
            &&& post.chat.streaming_text@ == pre.chat.streaming_text@
            &&& post.chat.is_streaming
            &&& cmds.len() == 1
            &&& cmds[0] matches ClientCommand::SendPrompt(p) && p@ == s
        }
    } else if is_key(code, mods, 'c', Modifiers::CONTROL) {
        post == App { should_quit: true, ..pre } && cmds.len() == 0
    } else if is_key(code, mods, 'l', Modifiers::CONTROL) {
        &&& others_same(pre, post)
        &&& chat_rest_same(pre.chat, post.chat)
        &&& input_same(pre.chat, post.chat)
        &&& pushed(Seq::empty(), post.chat.messages@, MessageRole::System, "Chat cleared."@)
        &&& cmds.len() == 0
    } else if code == KeyCode::Backspace {
        edited(pre, post, ed_backspace(e), cmds)
    } else if code == KeyCode::Delete {
        edited(pre, post, ed_delete(e), cmds)
    } else if code == KeyCode::Left {
        edited(pre, post, ed_left(e), cmds)
    } else if code == KeyCode::Right {
        edited(pre, post, ed_right(e), cmds)
    } else if code == KeyCode::Home {
        edited(pre, post, ed_home(e), cmds)
    } else if code == KeyCode::End {
        edited(pre, post, ed_end(e), cmds)
    } else if code is Char && (mods == Modifiers::NONE || mods == Modifiers::SHIFT) {
        edited(pre, post, ed_insert(e, code->0), cmds)
    } else {
        post == pre && cmds.len() == 0
    }
}

/// The model a provider is saved with: its first one, or none.
pub open spec fn first_model(p: ProviderInfo) -> Seq<char> {
    if p.models@.len() > 0 {
        p.models@[0]@
    } else {
        Seq::empty()
    }
}

/// What a key does in the provider picker.
pub open spec fn onboarding_key_outcome(pre: App, post: App, code: KeyCode, cmds: Seq<ClientCommand>) -> bool {
    let o = pre.onboarding;
    match code {
        KeyCode::Up => post == App {
            onboarding: OnboardingState {
                selected_idx: if o.filtered().len() > 0 {
                    moved_up(o.selected_idx)
                } else {
                    o.selected_idx
                },
                ..o
            },
            ..pre
        } && cmds.len() == 0,
        KeyCode::Down => post == App {
            onboarding: OnboardingState {
                selected_idx: moved_down(o.selected_idx, o.filtered().len()),
                ..o
            },
            ..pre
        } && cmds.len() == 0,
        KeyCode::Enter => {
            &&& post == pre
            &&& o.selected_idx < o.filtered().len() ==> {
                let p = o.filtered()[o.selected_idx as int];
                &&& cmds.len() == 2
                &&& cmds[0] matches ClientCommand::SaveDefaults { provider, model } && provider@
                    == p.id@ && model@ == first_model(p)
                &&& cmds[1] is CreateSession
            }
            &&& o.selected_idx >= o.filtered().len() ==> cmds.len() == 0
        },
        KeyCode::Esc => post == pre && just_create_session(cmds),
        KeyCode::Backspace => {
            &&& post == App { onboarding: post.onboarding, ..pre }
            &&& post.onboarding.providers == o.providers
            &&& post.onboarding.selected_idx == 0
            &&& post.onboarding.search_query@ == (if o.search_query@.len() > 0 {
                o.search_query@.drop_last()
            } else {
                o.search_query@
            })
            &&& cmds.len() == 0
        },
        KeyCode::Char(c) => {
            &&& post == App { onboarding: post.onboarding, ..pre }
            &&& post.onboarding.providers == o.providers
            &&& post.onboarding.selected_idx == 0
            &&& post.onboarding.search_query@ == o.search_query@.push(c)
            &&& cmds.len() == 0
        },
        _ => post == pre && cmds.len() == 0,
    }
}

/// What a key does in the sessions view.
pub open spec fn sessions_key_outcome(pre: App, post: App, code: KeyCode, cmds: Seq<ClientCommand>) -> bool {
    let st = pre.sessions;
    match code {
        KeyCode::Up => post == App {
            sessions: SessionsState { selected_idx: moved_up(st.selected_idx), ..st },
            ..pre
        } && cmds.len() == 0,
        KeyCode::Down => post == App {
            sessions: SessionsState {
                selected_idx: moved_down(st.selected_idx, st.sessions@.len()),
                ..st
            },
            ..pre
        } && cmds.len() == 0,
        KeyCode::Enter => if st.selected_idx < st.sessions@.len() {
            others_same(pre, post) && is_fresh(post.chat) && just_create_session(cmds)
        } else {
            post == pre && cmds.len() == 0
        },
        KeyCode::Char('n') => others_same(pre, post) && is_fresh(post.chat) && just_create_session(
            cmds,
        ),
        KeyCode::Esc => post == App { view: AppView::Chat, ..pre } && cmds.len() == 0,
        _ => post == pre && cmds.len() == 0,
    }
}

/// What a key does in the extensions view.
pub open spec fn extensions_key_outcome(pre: App, post: App, code: KeyCode, cmds: Seq<ClientCommand>) -> bool {
    let st = pre.extensions;
    match code {
        KeyCode::Up => post == App {
            extensions: ExtensionsState { selected_idx: moved_up(st.selected_idx), ..st },
            ..pre
        } && cmds.len() == 0,
        KeyCode::Down => post == App {
            extensions: ExtensionsState {
                selected_idx: moved_down(st.selected_idx, st.extensions@.len()),
                ..st
            },
            ..pre
        } && cmds.len() == 0,
        KeyCode::Char(' ') => if st.selected_idx < st.extensions@.len() {
            let ext = st.extensions@[st.selected_idx as int];
            &&& post == App { extensions: post.extensions, ..pre }
            &&& post.extensions.selected_idx == st.selected_idx
            &&& post.extensions.extensions@ == st.extensions@.update(
                st.selected_idx as int,
                ExtensionInfo { enabled: !ext.enabled, ..ext },
            )
            &&& cmds.len() == 1
            &&& cmds[0] matches ClientCommand::ToggleExtension { key, enabled } && key@ == ext.name@
                && enabled == !ext.enabled
        } else {
            post == pre && cmds.len() == 0
        },
        KeyCode::Esc => post == App { view: AppView::Chat, ..pre } && cmds.len() == 0,
        _ => post == pre && cmds.len() == 0,
    }
}

/// Control-C, whatever else is held.
pub open spec fn is_interrupt(code: KeyCode, mods: u8) -> bool {
    code == KeyCode::Char('c') && (mods & Modifiers::CONTROL) != 0
}

/// What a key does: control-C quits from any view; the splash screen takes
/// no keys; every other view handles its own.
pub open spec fn key_outcome(pre: App, post: App, code: KeyCode, mods: u8, cmds: Seq<ClientCommand>) -> bool {
    if is_interrupt(code, mods) {
        post == App { should_quit: true, ..pre } && cmds.len() == 0
    } else {
        match pre.view {
            AppView::Splash => post == pre && cmds.len() == 0,
            AppView::Onboarding => onboarding_key_outcome(pre, post, code, cmds),
            AppView::Chat => chat_key_outcome(pre, post, code, mods, cmds),
            AppView::Sessions => sessions_key_outcome(pre, post, code, cmds),
            AppView::Extensions => extensions_key_outcome(pre, post, code, cmds),
        }
    }
}

/// Control-C quits from every view and changes nothing else.
pub proof fn law_interrupt_quits(pre: App, post: App, code: KeyCode, mods: u8, cmds: Seq<ClientCommand>)
    requires
        key_outcome(pre, post, code, mods, cmds),
        is_interrupt(code, mods),
    ensures
        post.should_quit,
        post == (App { should_quit: true, ..pre }),
        cmds.len() == 0,
{
}

/// The splash screen ignores every key but control-C.
pub proof fn law_splash_ignores_keys(pre: App, post: App, code: KeyCode, mods: u8, cmds: Seq<ClientCommand>)
    requires
        key_outcome(pre, post, code, mods, cmds),
        pre.view == AppView::Splash,
        !is_interrupt(code, mods),
    ensures
        post == pre,
        cmds.len() == 0,
{
}

/// `/new` leaves an empty chat and asks for one new session.
pub proof fn law_new_starts_fresh(pre: App, post: App, cmds: Seq<ClientCommand>)
    requires
        slash_outcome(pre, post, "/new"@, cmds),
    ensures
        is_fresh(post.chat),
        just_create_session(cmds),
        others_same(pre, post),
{
    reveal_strlit("/help");
    reveal_strlit("/sessions");
    reveal_strlit("/extensions");
    reveal_strlit("/provider");
    reveal_strlit("/clear");
    reveal_strlit("/new");
    assert("/help"@.len() == 5);
    assert("/new"@.len() == 4);
    assert("/sessions"@.len() == 9);
    assert("/extensions"@.len() == 11);
    assert("/provider"@.len() == 9);
    assert("/clear"@.len() == 6);
}

/// Enter on a listed session in the sessions view empties the chat (no
/// messages, no tool calls, no input, nothing streaming) and sends exactly
/// one command, `CreateSession`; the view and the lists stay as they were.
pub proof fn law_sessions_enter_starts_session(pre: App, post: App, mods: u8, cmds: Seq<ClientCommand>)
    requires
        pre.view == AppView::Sessions,
        pre.sessions.selected_idx < pre.sessions.sessions@.len(),
        key_outcome(pre, post, KeyCode::Enter, mods, cmds),
    ensures
        cmds.len() == 1,
        cmds[0] is CreateSession,
        post.chat.messages@.len() == 0,
        post.chat.tool_calls@.len() == 0,
        post.chat.input@.len() == 0,
        post.chat.input_cursor == 0,
        post.chat.streaming_text@.len() == 0,
        !post.chat.is_streaming,
        post.view == AppView::Sessions,
        post.sessions == pre.sessions,
        post.extensions == pre.extensions,
        post.onboarding == pre.onboarding,
        post.should_quit == pre.should_quit,
{
    assert(!is_interrupt(KeyCode::Enter, mods));
}

/// The text of the chunks `cs`, one after the other.
pub open spec fn concat_all(cs: Seq<String>) -> Seq<char>
    decreases cs.len(),
{
    if cs.len() == 0 {
        seq![]
    } else {
        concat_all(cs.drop_last()) + cs.last()@
    }
}

proof fn lemma_chunks_pile_up(states: Seq<App>, chunks: Seq<String>, cmds: Seq<Seq<ClientCommand>>, k: int)
    requires
        0 <= k <= chunks.len(),
        states.len() >= chunks.len() + 1,
        cmds.len() == chunks.len(),
        states[0].chat.streaming_text@.len() == 0,
        forall|i: int|
            0 <= i < chunks.len() ==> message_outcome(
                #[trigger] states[i],
                states[i + 1],
                AgentMessage::TextChunk(chunks[i]),
                cmds[i],
            ),
    ensures
        states[k].chat.streaming_text@ == concat_all(chunks.take(k)),
        states[k].chat.messages@ == states[0].chat.messages@,
        k > 0 ==> states[k].chat.is_streaming,
    decreases k,
{
    if k == 0 {
        assert(chunks.take(0) =~= Seq::<String>::empty());
    } else {
        lemma_chunks_pile_up(states, chunks, cmds, k - 1);
        assert(message_outcome(states[k - 1], states[k], AgentMessage::TextChunk(chunks[k - 1]), cmds[k - 1]));
        assert(chunks.take(k).drop_last() =~= chunks.take(k - 1));
    }
}

/// The chunks of a reply pile up in order in the streamed text, and once
/// the reply is complete they have become a single assistant message (none
/// if they were all empty) and nothing streams any more.
pub proof fn law_stream_becomes_message(
    states: Seq<App>,
    chunks: Seq<String>,
    cmds: Seq<Seq<ClientCommand>>,
    done: Seq<ClientCommand>,
)
    requires
        states.len() == chunks.len() + 2,
        cmds.len() == chunks.len(),
        states[0].chat.streaming_text@.len() == 0,
        forall|i: int|
            0 <= i < chunks.len() ==> message_outcome(
                #[trigger] states[i],
                states[i + 1],
                AgentMessage::TextChunk(chunks[i]),
                cmds[i],
            ),
        message_outcome(
            states[chunks.len() as int],
            states[chunks.len() + 1int],
            AgentMessage::ResponseComplete,
            done,
        ),
    ensures
        concat_all(chunks).len() > 0 ==> pushed(
            states[0].chat.messages@,
            states[chunks.len() + 1int].chat.messages@,
            MessageRole::Assistant,
            concat_all(chunks),
        ),
        concat_all(chunks).len() == 0 ==> states[chunks.len() + 1int].chat.messages@
            == states[0].chat.messages@,
        !states[chunks.len() + 1int].chat.is_streaming,
        states[chunks.len() + 1int].chat.streaming_text@.len() == 0,
{
    let n = chunks.len() as int;
    lemma_chunks_pile_up(states, chunks, cmds, n);
    assert(chunks.take(n) =~= chunks);
}

/// `v` without whitespace at either end.
fn trimmed(v: &Vec<char>) -> (t: Vec<char>)
    ensures
        t@ == trim(v@),
{
    let n = v.len();
    let mut a: usize = 0;
    assert(v@.skip(0) =~= v@);
    while a < n && is_whitespace(v[a])
        invariant
            a <= n,
            n == v@.len(),
            trim_start(v@) == trim_start(v@.skip(a as int)),
        decreases n - a,
    {
        assert(v@.skip(a as int).drop_first() =~= v@.skip(a + 1));
        a = a + 1;
    }
    let ghost t0 = v@.skip(a as int);
    assert(trim_start(v@) == t0) by {
        if a < n {
            assert(t0[0] == v@[a as int]);
        }
    }
    let mut b: usize = n;
    assert(t0.take(t0.len() as int) =~= t0);
    while b > a && is_whitespace(v[b - 1])
        invariant
            a <= b <= n,
            n == v@.len(),
            t0 == v@.skip(a as int),
            trim_end(t0) == trim_end(t0.take(b - a)),
        decreases b,
    {
        assert(t0.take(b - a).drop_last() =~= t0.take(b - 1 - a));
        assert(t0.take(b - a).last() == v@[b - 1]);
        b = b - 1;
    }
    assert(trim_end(t0.take(b - a)) == t0.take(b - a)) by {
        if b > a {
            assert(t0.take(b - a).last() == v@[b - 1]);
        }
    }
    let t = copy_range(v, a, b);
    assert(t@ =~= t0.take(b - a));
    t
}

/// The first word of the slash command `cmd`.
pub fn first_word(cmd: &str) -> (w: String)
    ensures
        w@ == command_word(cmd@),
{
    let v = chars_of(cmd);
    let t = trimmed(&v);
    let j = find_in(&t, ' ');
    proof {
        assert(t@.skip(0) =~= t@);
    }
    let w = copy_range(&t, 0, j);
    assert(w@ =~= until(t@, ' '));
    string_from_chars(&w)
}

impl App {
    /// The chat's input line is consistent.
    pub open spec fn wf(&self) -> bool {
        self.chat.wf()
    }

    /// The two text fields a key can grow have room for one more character.
    pub open spec fn has_room(&self) -> bool {
        &&& utf8_len(self.chat.input@) + 4 <= isize::MAX
        &&& utf8_len(self.onboarding.search_query@) + 4 <= isize::MAX
    }

    /// Tests `has_room`.
    pub fn input_has_room(&self) -> (b: bool)
        ensures
            b == self.has_room(),
    {
        let a = str_byte_len(self.chat.input.as_str());
        let q = str_byte_len(self.onboarding.search_query.as_str());
        a <= (isize::MAX as usize) - 4 && q <= (isize::MAX as usize) - 4
    }

    pub fn new() -> (app: Self)
        ensures
            app.wf(),
            app.view == AppView::Splash,
            app.tick == 0,
            is_fresh(app.chat),
            app.onboarding.providers@.len() == 0,
            app.onboarding.selected_idx == 0,
            app.onboarding.search_query@.len() == 0,
            app.sessions.sessions@.len() == 0,
            app.sessions.selected_idx == 0,
            app.extensions.extensions@.len() == 0,
            app.extensions.selected_idx == 0,
            !app.should_quit,
            !app.session_active,
    {
        Self {
            view: AppView::Splash,
            tick: 0,
            chat: ChatState::new(),
            onboarding: OnboardingState::new(),
            sessions: SessionsState::new(),
            extensions: ExtensionsState::new(),
            should_quit: false,
            session_active: false,
        }
    }

    fn push_system(&mut self, text: String)
        ensures
            pushed(old(self).chat.messages@, final(self).chat.messages@, MessageRole::System, text@),
            chat_rest_same(old(self).chat, final(self).chat),
            input_same(old(self).chat, final(self).chat),
            others_same(*old(self), *final(self)),
    {
        self.chat.messages.push(ChatMessage { role: MessageRole::System, content: text });
        assert(self.chat.messages@.take(old(self).chat.messages@.len() as int) =~= old(self).chat.messages@);
    }

    /// Asks the agent client for a new session.
    pub fn start_session(&self) -> (cmds: Vec<ClientCommand>)
        ensures
            just_create_session(cmds@),
    {
        let mut cmds: Vec<ClientCommand> = Vec::new();
        cmds.push(ClientCommand::CreateSession);
        cmds
    }

    /// Handles a slash command typed into the chat.
    pub fn handle_slash_command(&mut self, cmd: &str) -> (cmds: Vec<ClientCommand>)
        requires
            old(self).wf(),
        ensures
            final(self).wf(),
            slash_outcome(*old(self), *final(self), command_word(cmd@), cmds@),
            command_word(cmd@) != "/new"@ ==> input_same(old(self).chat, final(self).chat),
            command_word(cmd@) == "/new"@ ==> is_fresh(final(self).chat),
    {
        proof {
            reveal_strlit("/help");
            reveal_strlit("/sessions");
            reveal_strlit("/extensions");
            reveal_strlit("/provider");
            reveal_strlit("/clear");
            reveal_strlit("/new");
            reveal_strlit("/quit");
            assert("/help"@.len() == 5);
            assert("/new"@.len() == 4);
            assert("/sessions"@.len() == 9);
        }
        let word = first_word(cmd);
        let mut cmds: Vec<ClientCommand> = Vec::new();
        if word == String::from_str("/help") {
            self.push_system(String::from_str("Available commands:\n  /sessions  - list and resume sessions\n  /extensions - manage extensions\n  /provider  - change provider/model\n  /clear     - clear chat history\n  /new       - start a new session\n  /quit      - exit goose"));
        } else if word == String::from_str("/sessions") {
            cmds.push(ClientCommand::ListSessions);
        } else if word == String::from_str("/extensions") {
            cmds.push(ClientCommand::ListExtensions);
        } else if word == String::from_str("/provider") {
            cmds.push(ClientCommand::ListProviders);
            self.view = AppView::Onboarding;
        } else if word == String::from_str("/clear") {
            self.chat.messages.clear();
            self.push_system(String::from_str("Chat cleared."));
        } else if word == String::from_str("/new") {
            self.chat = ChatState::new();
            cmds = self.start_session();
        } else if word == String::from_str("/quit") {
            self.should_quit = true;
        } else {
            let mut text = String::from_str("Unknown command: ");
            text.append(word.as_str());
            text.append(". Type /help");
            self.push_system(text);
        }
        cmds
    }

    /// Handles a message from the agent client.
    pub fn handle_agent_message(&mut self, msg: AgentMessage) -> (cmds: Vec<ClientCommand>)
        requires
            old(self).wf(),
        ensures
            final(self).wf(),
            message_outcome(*old(self), *final(self), msg, cmds@),
    {
        let mut cmds: Vec<ClientCommand> = Vec::new();
        match msg {
            AgentMessage::Initialized => {
                cmds.push(ClientCommand::ListProviders);
            },
            AgentMessage::ProvidersList(providers) => {
                let has_configured = configured_any(&providers);
                self.onboarding.providers = providers;
                if has_configured {
                    cmds = self.start_session();
                } else {
                    self.view = AppView::Onboarding;
                }
            },
            AgentMessage::SessionCreated(_id) => {
                self.session_active = true;
                self.view = AppView::Chat;
                self.push_system(String::from_str("Session started. How can I help?"));
            },
            AgentMessage::TextChunk(text) => {
                self.chat.is_streaming = true;
                self.chat.streaming_text.append(text.as_str());
            },
            AgentMessage::ToolCallStarted { title, id } => {
                self.chat.is_streaming = true;
                self.chat.tool_calls.push(
                    ToolCallDisplay { title, id, status: String::from_str("running") },
                );
                assert(self.chat.tool_calls@.take(old(self).chat.tool_calls@.len() as int)
                    =~= old(self).chat.tool_calls@);
            },
            AgentMessage::ToolCallUpdate { id, status } => {
                let n = self.chat.tool_calls.len();
                let mut j: usize = 0;
                while j < n && !(self.chat.tool_calls[j].id == id)
                    invariant
                        j <= n,
                        n == self.chat.tool_calls@.len(),
                        forall|i: int| 0 <= i < j ==> self.chat.tool_calls@[i].id@ != id@,
                    decreases n - j,
                {
                    j = j + 1;
                }
                proof {
                    lemma_tool_index_unique(self.chat.tool_calls@, id@, j as int);
                }
                if j < n {
                    let mut tc = self.chat.tool_calls.remove(j);
                    tc.status = status;
                    self.chat.tool_calls.insert(j, tc);
                    assert(self.chat.tool_calls@ =~= updated_tools(old(self).chat.tool_calls@, id@, status));
                }
            },
            AgentMessage::ResponseComplete => {
                self.chat.finalize_stream();
            },
            AgentMessage::SessionsList(sessions) => {
                self.sessions.sessions = sessions;
                self.view = AppView::Sessions;
            },
            AgentMessage::ExtensionsList(extensions) => {
                self.extensions.extensions = extensions;
                self.view = AppView::Extensions;
            },
            AgentMessage::Error(err) => {
                let text = String::from_str("Error: ").concat(err.as_str());
                self.push_system(text);
            },
        }
        cmds
    }

    /// Empties the transcript but for a note that it was cleared.
    fn clear_chat(&mut self)
        ensures
            others_same(*old(self), *final(self)),
            chat_rest_same(old(self).chat, final(self).chat),
            input_same(old(self).chat, final(self).chat),
            pushed(Seq::empty(), final(self).chat.messages@, MessageRole::System, "Chat cleared."@),
    {
        self.chat.messages.clear();
        self.push_system(String::from_str("Chat cleared."));
    }

    /// Handles a key in the chat view.
    pub fn handle_key_chat(&mut self, code: KeyCode, modifiers: u8) -> (cmds: Vec<ClientCommand>)
        requires
            old(self).wf(),
            old(self).has_room(),
        ensures
            final(self).wf(),
            chat_key_outcome(*old(self), *final(self), code, modifiers, cmds@),
    {
        let mut cmds: Vec<ClientCommand> = Vec::new();
        if code == KeyCode::Enter && modifiers == Modifiers::NONE {
            let input = self.chat.take_input();
            if input.as_str().is_empty() {
                return cmds;
            }
            if input.as_str().get_char(0) == '/' {
                cmds = self.handle_slash_command(input.as_str());
                assert(self.chat.input@.len() == 0);
            } else {
                self.chat.push_user_message(input.clone());
                self.chat.is_streaming = true;
                cmds.push(ClientCommand::SendPrompt(input));
                assert(self.chat.messages@.take(old(self).chat.messages@.len() as int)
                    =~= old(self).chat.messages@);
            }
        } else if code == KeyCode::Char('c') && modifiers == Modifiers::CONTROL {
            self.should_quit = true;
        } else if code == KeyCode::Char('l') && modifiers == Modifiers::CONTROL {
            self.clear_chat();
        } else {
            match code {
                KeyCode::Backspace => self.chat.input_backspace(),
                KeyCode::Delete => self.chat.input_delete(),
                KeyCode::Left => self.chat.input_left(),
                KeyCode::Right => self.chat.input_right(),
                KeyCode::Home => self.chat.input_home(),
                KeyCode::End => self.chat.input_end(),
                KeyCode::Char(c) => {
                    if modifiers == Modifiers::NONE || modifiers == Modifiers::SHIFT {
                        self.chat.input_insert(c);
                    }
                },
                _ => {},
            }
        }
        cmds
    }

    /// Handles a key in the provider picker.
    pub fn handle_key_onboarding(&mut self, code: KeyCode, _modifiers: u8) -> (cmds: Vec<ClientCommand>)
        requires
            old(self).wf(),
            old(self).has_room(),
        ensures
            final(self).wf(),
            onboarding_key_outcome(*old(self), *final(self), code, cmds@),
    {
        let mut cmds: Vec<ClientCommand> = Vec::new();
        match code {
            KeyCode::Up => self.onboarding.move_up(),
            KeyCode::Down => self.onboarding.move_down(),
            KeyCode::Enter => {
                let filtered = self.onboarding.filtered_providers();
                if self.onboarding.selected_idx < filtered.len() {
                    let provider = filtered[self.onboarding.selected_idx];
                    let ghost pv = *provider;
                    assert(pv == self.onboarding.filtered()[self.onboarding.selected_idx as int]) by {
                        assert(filtered@.map_values(|p: &ProviderInfo| *p)[self.onboarding.selected_idx as int] == pv);
                    }
                    let provider_id = provider.id.clone();
                    let model = if provider.models.len() > 0 {
                        provider.models[0].clone()
                    } else {
                        String::new()
                    };
                    cmds.push(ClientCommand::SaveDefaults { provider: provider_id, model });
                    cmds.push(ClientCommand::CreateSession);
                }
            },
            KeyCode::Esc => {
                cmds = self.start_session();
            },
            KeyCode::Backspace => {
                let _ = string_pop(&mut self.onboarding.search_query);
                self.onboarding.selected_idx = 0;
            },
            KeyCode::Char(c) => {
                string_push(&mut self.onboarding.search_query, c);
                self.onboarding.selected_idx = 0;
            },
            _ => {},
        }
        cmds
    }

    /// Handles a key in the sessions view.
    pub fn handle_key_sessions(&mut self, code: KeyCode, _modifiers: u8) -> (cmds: Vec<ClientCommand>)
        requires
            old(self).wf(),
        ensures
            final(self).wf(),
            sessions_key_outcome(*old(self), *final(self), code, cmds@),
    {
        let mut cmds: Vec<ClientCommand> = Vec::new();
        match code {
            KeyCode::Up => self.sessions.move_up(),
            KeyCode::Down => self.sessions.move_down(),
            KeyCode::Enter => {
                if self.sessions.selected_idx < self.sessions.sessions.len() {
                    self.chat = ChatState::new();
                    cmds = self.start_session();
                }
            },
            KeyCode::Char('n') => {
                self.chat = ChatState::new();
                cmds = self.start_session();
            },
            KeyCode::Esc => {
                self.view = AppView::Chat;
            },
            _ => {},
        }
        cmds
    }

    /// Handles a key in the extensions view.
    pub fn handle_key_extensions(&mut self, code: KeyCode, _modifiers: u8) -> (cmds: Vec<ClientCommand>)
        requires
            old(self).wf(),
        ensures
            final(self).wf(),
            extensions_key_outcome(*old(self), *final(self), code, cmds@),
    {
        let mut cmds: Vec<ClientCommand> = Vec::new();
        match code {
            KeyCode::Up => self.extensions.move_up(),
            KeyCode::Down => self.extensions.move_down(),
            KeyCode::Char(' ') => {
                let idx = self.extensions.selected_idx;
                if idx < self.extensions.extensions.len() {
                    let key = self.extensions.extensions[idx].name.clone();
                    let new_enabled = !self.extensions.extensions[idx].enabled;
                    cmds.push(ClientCommand::ToggleExtension { key, enabled: new_enabled });
                    let mut ext = self.extensions.extensions.remove(idx);
                    ext.enabled = new_enabled;
                    self.extensions.extensions.insert(idx, ext);
                    assert(self.extensions.extensions@ =~= old(self).extensions.extensions@.update(
                        idx as int,
                        ExtensionInfo { enabled: new_enabled, ..old(self).extensions.extensions@[idx as int] },
                    ));
                }
            },
            KeyCode::Esc => {
                self.view = AppView::Chat;
            },
            _ => {},
        }
        cmds
    }

    /// Handles a key press from the terminal.
    pub fn handle_key(&mut self, code: KeyCode, modifiers: u8) -> (cmds: Vec<ClientCommand>)
        requires
            old(self).wf(),
            old(self).has_room(),
        ensures
            final(self).wf(),
            key_outcome(*old(self), *final(self), code, modifiers, cmds@),
    {
        if code == KeyCode::Char('c') && (modifiers & Modifiers::CONTROL) != 0 {
            self.should_quit = true;
            return Vec::new();
        }
        match self.view {
            AppView::Splash => Vec::new(),
            AppView::Onboarding => self.handle_key_onboarding(code, modifiers),
            AppView::Chat => self.handle_key_chat(code, modifiers),
            AppView::Sessions => self.handle_key_sessions(code, modifiers),
            AppView::Extensions => self.handle_key_extensions(code, modifiers),
        }
    }

    /// Advances the animation clock by one tick.
    pub fn on_tick(&mut self)
        requires
            old(self).tick < u64::MAX,
        ensures
            *final(self) == (App { tick: (old(self).tick + 1) as u64, ..*old(self) }),
    {
        self.tick = self.tick + 1;
    }
}

/// Whether some provider in `ps` is configured.
fn configured_any(ps: &Vec<ProviderInfo>) -> (b: bool)
    ensures
        b == any_configured(ps@),
{
    let n = ps.len();
    let mut i: usize = 0;
    while i < n
        invariant
            i <= n,
            n == ps@.len(),
            forall|j: int| 0 <= j < i ==> !ps@[j].configured,
        decreases n - i,
    {
        if ps[i].configured {
            assert(ps@[i as int].configured);
            return true;
        }
        i = i + 1;
    }
    false
}

} // verus!
