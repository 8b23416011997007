//! What happens to the application: what the user and the agent do, and what
//! came of what the application asked for.

use crate::tui::dialogs::LocalModel;
use crate::tui::files::FileEntry;
use crate::tui::keys::KeyPress;
use crate::tui::message::StoredMessage;
use crate::tui::model::{AppMode, ProviderView, ResponseView, SessionView, SwitchOutcomeView};
use crate::tui::plan::PlanDocument;
use crate::types;
use crate::types::{Float64, PerfMetrics};
use vstd::prelude::*;

verus! {

/// A session.
#[derive(Clone, Debug)]
pub struct Session {
    pub id: u128,
    pub title: Option<String>,
    pub model: Option<String>,
    pub provider: Option<String>,
}

impl View for Session {
    type V = SessionView;

    open spec fn view(&self) -> SessionView {
        SessionView {
            id: self.id,
            title: types::opt_text(self.title),
            model: types::opt_text(self.model),
            provider: types::opt_text(self.provider),
        }
    }
}

/// What the sessions of a list are.
pub open spec fn session_views(v: Seq<Session>) -> Seq<SessionView> {
    Seq::new(v.len(), |i: int| v[i]@)
}

/// What an optional session is.
pub open spec fn opt_session(s: Option<Session>) -> Option<SessionView> {
    match s {
        Some(s) => Some(s@),
        None => None,
    }
}

/// An answer of the agent.
#[derive(Clone, Debug)]
pub struct AgentResponse {
    pub message_id: u128,
    pub content: String,
    pub thinking_text: Option<String>,
    pub model: String,
    pub provider_name: String,
    pub input_tokens: u32,
    pub output_tokens: u32,
    pub cost: Float64,
    pub perf_metrics: Option<PerfMetrics>,
    /// How fast it was written, where that was measured.
    pub tokens_per_second: Option<Float64>,
}

impl AgentResponse {
    /// Whether the number of tokens can be shown.
    pub open spec fn fits(&self) -> bool {
        i32::MIN <= self@.tokens() <= i32::MAX
    }
}

impl View for AgentResponse {
    type V = ResponseView;

    open spec fn view(&self) -> ResponseView {
        ResponseView {
            message_id: self.message_id,
            content: self.content@,
            thinking_text: types::opt_text(self.thinking_text),
            model: self.model@,
            provider_name: self.provider_name@,
            input_tokens: self.input_tokens,
            output_tokens: self.output_tokens,
            cost: self.cost,
            perf_metrics: self.perf_metrics,
            tokens_per_second: self.tokens_per_second,
        }
    }
}

/// A provider, and the model that it uses.
#[derive(Clone, Debug)]
pub struct ActiveProvider {
    pub name: String,
    pub model: String,
    pub context_window: Option<u32>,
}

impl View for ActiveProvider {
    type V = ProviderView;

    open spec fn view(&self) -> ProviderView {
        ProviderView {
            name: self.name@,
            model: self.model@,
            context_window: self.context_window,
        }
    }
}

/// What came of switching to another model.
#[derive(Clone, Debug)]
pub enum SwitchOutcome {
    /// This provider is the active one now.
    Switched(ActiveProvider),
    /// The agent is at work and cannot switch.
    Busy,
    /// It was loaded, but cannot be found.
    Lost,
    /// It could not be loaded, for this reason.
    Failed(String),
}

impl View for SwitchOutcome {
    type V = SwitchOutcomeView;

    open spec fn view(&self) -> SwitchOutcomeView {
        match *self {
            SwitchOutcome::Switched(p) => SwitchOutcomeView::Switched(p@),
            SwitchOutcome::Busy => SwitchOutcomeView::Busy,
            SwitchOutcome::Lost => SwitchOutcomeView::Lost,
            SwitchOutcome::Failed(e) => SwitchOutcomeView::Failed(e@),
        }
    }
}

/// Something that happened.
#[derive(Debug)]
pub enum TuiEvent {
    Key(KeyPress),
    Paste(String),
    MessageSubmitted(String),
    /// A part of the answer for a session.
    ResponseChunk(u128, String),
    /// The answer for a session.
    ResponseComplete(u128, AgentResponse),
    /// Why there is no answer for a session.
    Error(u128, String),
    SwitchMode(AppMode),
    SelectSession(u128),
    NewSession,
    Quit,
    /// Time went on. `timed_out` says whether the request for approval has waited
    /// too long.
    Tick { timed_out: bool },
    /// Approval is asked for, under this number.
    ToolApprovalRequested(u128),
    ToolApprovalResponse,
    Resize(u16, u16),
    AgentProcessing,
    OllamaModelsListed(Vec<String>),
    ProviderSwitchModelsListed(Vec<String>),
    OllamaPullProgress { status: String, fraction: Option<Float64> },
    OllamaPullFinished { model: String, error: Option<String> },
    OllamaDeleteFinished { model: String, error: Option<String> },
    LlamaCppModelsListed(Vec<LocalModel>),
    LlamaCppHardwareDetected(String),
    LlamaCppDownloadProgress { status: String, fraction: Option<Float64> },
    LlamaCppDownloadFinished { source: String, error: Option<String> },
    /// `name` is the last part of the path.
    LlamaCppDeleteFinished { path: String, name: String, error: Option<String> },
    LlamaCppSwitchFinished { path: String, name: String, outcome: SwitchOutcome },
    OllamaSwitchFinished { model: String, outcome: SwitchOutcome },
    SessionsListed(Vec<Session>),
    SessionCreated(Session),
    SessionLoaded { session: Session, messages: Vec<StoredMessage>, show_chat: bool },
    MessagesDeleted,
    /// The tasks of the current plan, each after those it depends on. There is
    /// no such order where they depend on each other in a circle.
    TasksOrdered(Option<Vec<usize>>),
    PlanInDatabase { to_view: bool, plan: Option<PlanDocument> },
    PlanInFile { to_view: bool, plan: Option<PlanDocument> },
    PlanExported,
    SkillsListed(Vec<String>),
    /// What a skill asks of the agent, if there is one of the name.
    SkillResolved { content: String, arguments: String, prompt: Option<String> },
    DirectoryListed { up: Option<FileEntry>, entries: Vec<FileEntry> },
    /// What is at the path of the selected file: whether it is a directory, and
    /// the way up at that, and where that leads.
    EntryOpened { path: String, is_dir: bool, is_up: bool, parent: Option<String> },
    CopyFailed(String),
    ClipboardText(String),
    ClipboardFailed(String),
    SuggestionsFiltered(Vec<String>),
}

} // verus!
