//! The state of the application as a mathematical value, and what each event
//! makes of it.
//!
//! A message that the application adds has a new identifier and the time at which
//! it was added. Neither follows from the state, so what adds messages takes them
//! as `stamps`: those of the messages that are there afterwards, each at the place
//! of its message.

use crate::ids;
use crate::llama_cpp::provider;
use crate::llama_cpp::provider::ConfigView;
use crate::text;
use crate::tui::dialogs::{DownloadView, LocalView, ReactionView, SwitchView};
use crate::tui::dialogs;
use crate::tui::effects::EffectView;
use crate::tui::events;
use crate::tui::events::TuiEvent;
use crate::tui::files;
use crate::tui::files::{EntryView, PickerView};
use crate::tui::input;
use crate::tui::input::InputView;
use crate::tui::keys::{KeyCode, KeyPress};
use crate::tui::message;
use crate::tui::message::{ShownView, Stamp, Timestamp};
use crate::tui::plan;
use crate::tui::plan::{PlanStatus, PlanView};
use crate::types;
use crate::types::{Float64, PerfMetrics};
use vstd::prelude::*;

verus! {

/// What is on the screen.
#[derive(Clone, Copy, PartialEq, Eq, Structural, Debug)]
pub enum AppMode {
    Chat,
    Plan,
    Sessions,
    ToolApproval,
    FilePicker,
    ModelDownload,
    ProviderSwitch,
    LlamaCppModelPicker,
    Skills,
    Mcp,
    Help,
    Settings,
    ModelInfo,
}

/// How much is done without asking.
#[derive(Clone, Copy, PartialEq, Eq, Structural, Debug)]
pub enum AutoMode {
    Interactive,
    AutoPlan,
    FullAuto,
}

/// The level after a level, and after the last the first.
pub open spec fn next_auto_mode(m: AutoMode) -> AutoMode {
    match m {
        AutoMode::Interactive => AutoMode::AutoPlan,
        AutoMode::AutoPlan => AutoMode::FullAuto,
        AutoMode::FullAuto => AutoMode::Interactive,
    }
}

/// Going through all levels ends where it began, and no level is skipped: each
/// does more without asking than the one before.
pub proof fn auto_modes_go_round(m: AutoMode)
    ensures
        next_auto_mode(AutoMode::Interactive) == AutoMode::AutoPlan,
        next_auto_mode(AutoMode::AutoPlan) == AutoMode::FullAuto,
        next_auto_mode(next_auto_mode(next_auto_mode(m))) == m,
        next_auto_mode(m) != m,
{
}

/// What a session is.
pub struct SessionView {
    pub id: u128,
    pub title: Option<Seq<char>>,
    pub model: Option<Seq<char>>,
    pub provider: Option<Seq<char>>,
}

/// What an answer of the agent holds.
pub struct ResponseView {
    pub message_id: u128,
    pub content: Seq<char>,
    pub thinking_text: Option<Seq<char>>,
    pub model: Seq<char>,
    pub provider_name: Seq<char>,
    pub input_tokens: u32,
    pub output_tokens: u32,
    pub cost: Float64,
    pub perf_metrics: Option<PerfMetrics>,
    pub tokens_per_second: Option<Float64>,
}

impl ResponseView {
    /// The tokens of the request and of the answer.
    pub open spec fn tokens(self) -> int {
        provider::as_signed(self.input_tokens) + provider::as_signed(self.output_tokens)
    }
}

/// What a provider is.
pub struct ProviderView {
    pub name: Seq<char>,
    pub model: Seq<char>,
    pub context_window: Option<u32>,
}

/// What came of switching to another model.
pub enum SwitchOutcomeView {
    Switched(ProviderView),
    Busy,
    Lost,
    Failed(Seq<char>),
}

/// What is set when the application starts.
#[derive(Clone, Debug)]
pub struct Settings {
    /// Whether the terminal can tell shift and enter from enter.
    pub kitty_keyboard_protocol_active: bool,
    pub ollama_host: String,
    /// Where model files are looked for, and downloaded to.
    pub llama_cpp_models_dir: String,
    /// Where else model files are looked for.
    pub llama_cpp_extra_model_paths: Vec<String>,
    pub llama_cpp_ollama_models_dir: Option<String>,
    pub working_directory: String,
}

/// The state of the application.
pub struct AppView {
    pub session: Option<SessionView>,
    pub messages: Seq<ShownView>,
    pub sessions: Seq<SessionView>,
    pub mode: AppMode,
    pub input: InputView,
    pub scroll_offset: usize,
    pub selected_session: usize,
    pub should_quit: bool,
    pub auto_mode: AutoMode,
    pub is_processing: bool,
    pub streaming: Option<Seq<char>>,
    pub error: Option<Seq<char>>,
    pub processing: Option<u128>,
    pub frame: usize,
    pub approval: Option<u128>,
    pub show_details: bool,
    pub plan: Option<PlanView>,
    pub plan_scroll: usize,
    pub executing: bool,
    pub picker: PickerView,
    pub download: DownloadView,
    pub switch: SwitchView,
    pub local: LocalView,
    pub skills: Seq<Seq<char>>,
    pub skills_selected: usize,
    pub mcp: Seq<Seq<char>>,
    pub mcp_selected: usize,
    pub provider_name: Seq<char>,
    pub provider_model: Seq<char>,
    pub context_window: Option<u32>,
    pub active_path: Option<Seq<char>>,
    pub config: Option<ConfigView>,
    pub selected_task: Option<usize>,
    pub settings: Settings,
}

/// What an event makes of the state, and what it asks of the world.
pub type Outcome = (AppView, Seq<EffectView>);

/// What is said where tasks depend on each other in a circle.
pub const CIRCULAR: &'static str =
    "❌ Cannot Execute Plan\n\nCircular dependency detected in task graph. Tasks cannot be ordered because they form a dependency cycle.\n\n💡 Fix: Review task dependencies and remove circular references.\nYou can reject this plan (Ctrl+R) and ask the AI to revise it.";

/// What is said where a task of a plan has failed.
pub const STOPPED: &'static str =
    "⚠️ Plan execution stopped due to task failure. Review the error above and decide how to proceed.";

/// What is said where a provider cannot be switched yet.
pub const SWITCH_BUSY: &'static str =
    "Can't switch provider while a response is in progress - try again once it finishes.";

/// What is said where messages cannot be cleared yet.
pub const CLEAR_BUSY: &'static str = "⏳ Wait for the response to finish before clearing.";

/// What is said where there is no plan to show.
pub const NO_PLAN: &'static str = "No plan available. Create a plan first.";

/// What is said where there is no response to copy.
pub const NO_RESPONSE: &'static str = "No response to copy yet.";

/// What is said where a request for approval was not answered in time.
pub const TIMED_OUT: &'static str = "⏱️  Approval request timed out";

/// Why a request for approval is denied that was not answered in time.
pub const TIMED_OUT_REASON: &'static str = "Approval request timed out after 5 minutes";

/// Why a request for approval is denied.
pub const DENIED_REASON: &'static str = "User denied permission";

/// The title of a new session.
pub const NEW_CHAT: &'static str = "New Chat";

/// The file that an approved plan is written to.
pub const PLAN_FILE: &'static str = "PLAN.md";

/// The file in which the plan of a session may be.
pub open spec fn plan_file_name(session: u128) -> Seq<char> {
    ".crustly_plan_"@ + ids::uuid_digits(session) + ".json"@
}

/// The last assistant message.
pub open spec fn last_assistant(messages: Seq<ShownView>) -> Option<int>
    decreases messages.len(),
{
    if messages.len() == 0 {
        None
    } else if messages.last().role == "assistant"@ {
        Some(messages.len() - 1)
    } else {
        last_assistant(messages.drop_last())
    }
}

/// The last assistant message with reasoning.
pub open spec fn last_thinking(messages: Seq<ShownView>) -> Option<int>
    decreases messages.len(),
{
    if messages.len() == 0 {
        None
    } else if messages.last().role == "assistant"@ && messages.last().thinking_text is Some {
        Some(messages.len() - 1)
    } else {
        last_thinking(messages.drop_last())
    }
}

/// How many characters at the start of `s`, from `i` on, are not white space.
pub open spec fn word_end(s: Seq<char>, i: int) -> int
    decreases s.len() - i,
{
    if i < 0 || i >= s.len() || text::is_space(s[i]) {
        i
    } else {
        word_end(s, i + 1)
    }
}

/// `s` without the slashes it begins with.
pub open spec fn without_slashes(s: Seq<char>) -> Seq<char>
    decreases s.len(),
{
    if s.len() > 0 && s[0] == '/' {
        without_slashes(s.drop_first())
    } else {
        s
    }
}

/// The first word of a command.
pub open spec fn command_word(content: Seq<char>) -> Seq<char> {
    let t = text::trimmed(content);
    t.take(word_end(t, 0))
}

/// What follows the first word of a command.
pub open spec fn command_arguments(content: Seq<char>) -> Seq<char> {
    let t = text::trimmed(content);
    text::trimmed(t.skip(word_end(t, 0)))
}

/// A message about something that has or has not been done to `what`.
pub open spec fn report(
    done: Seq<char>,
    done_end: Seq<char>,
    failed: Seq<char>,
    what: Seq<char>,
    error: Option<Seq<char>>,
) -> Seq<char> {
    match error {
        None => done + what + done_end,
        Some(e) => failed + what + "': "@ + e,
    }
}

/// What is said of switching to the model file `name`.
pub open spec fn switch_text(name: Seq<char>, outcome: SwitchOutcomeView) -> Seq<char> {
    match outcome {
        SwitchOutcomeView::Switched(_) => "✅ Switched to '"@ + name + "'."@,
        SwitchOutcomeView::Busy => "❌ "@ + SWITCH_BUSY@,
        SwitchOutcomeView::Lost => "❌ Model '"@ + name
            + "' loaded but the result was lost - try again."@,
        SwitchOutcomeView::Failed(e) => "❌ Failed to load '"@ + name + "': "@ + e,
    }
}

impl AppView {
    /// The identifiers and the times of the messages.
    pub open spec fn stamps(self) -> Seq<Stamp> {
        Seq::new(self.messages.len(), |i: int| self.messages[i].stamp())
    }

    /// The identifier of the session on the screen.
    pub open spec fn current_id(self) -> Option<u128> {
        match self.session {
            Some(s) => Some(s.id),
            None => None,
        }
    }

    /// Whether the session on the screen waits for an answer.
    pub open spec fn busy_here(self) -> bool {
        self.is_processing && self.processing == self.current_id()
    }

    /// With a message of the application.
    pub open spec fn told(self, content: Seq<char>, stamps: Seq<Stamp>) -> AppView {
        let stamp = stamps[self.messages.len() as int];
        AppView { messages: self.messages.push(message::plain("system"@, content, stamp)), ..self }
    }

    /// In another mode; the sessions are read for their list.
    pub open spec fn in_mode(self, mode: AppMode) -> Outcome {
        (
            AppView { mode, ..self },
            if mode == AppMode::Sessions {
                seq![EffectView::ReloadSessions]
            } else {
                Seq::empty()
            },
        )
    }

    /// When a message is sent. Nothing happens while the session waits for an
    /// answer, or where there is no session.
    pub open spec fn sent(self, content: Seq<char>, stamps: Seq<Stamp>) -> Outcome {
        let stamp = stamps[self.messages.len() as int];
        match self.session {
            Some(s) if !self.busy_here() => (
                AppView {
                    is_processing: true,
                    processing: Some(s.id),
                    error: None,
                    messages: self.messages.push(message::plain("user"@, content, stamp)),
                    scroll_offset: 0,
                    ..self
                },
                seq![
                    EffectView::Send {
                        session: s.id,
                        content,
                        read_only: self.mode == AppMode::Plan,
                    },
                ],
            ),
            _ => (self, Seq::empty()),
        }
    }

    /// When another session came on the screen: it waits only if the answer that
    /// is outstanding is its own, and of that nothing is shown yet.
    pub open spec fn synced(self) -> AppView {
        AppView {
            is_processing: self.current_id() is Some && self.processing == self.current_id(),
            streaming: None,
            ..self
        }
    }

    /// With an error on the screen, and nothing outstanding.
    pub open spec fn failed(self, error: Seq<char>) -> AppView {
        AppView {
            is_processing: false,
            streaming: None,
            processing: None,
            error: Some(error),
            scroll_offset: 0,
            ..self
        }
    }

    /// What stores the current plan, where there is one and a session.
    pub open spec fn saving(self) -> Seq<EffectView> {
        match (self.plan, self.session) {
            (Some(plan), Some(s)) => seq![EffectView::SavePlan { session: s.id, plan }],
            _ => Seq::empty(),
        }
    }

    /// When the next task of the plan is to be done.
    pub open spec fn next_task(self) -> Outcome {
        match self.plan {
            Some(_) => (self, seq![EffectView::OrderTasks]),
            None => (AppView { executing: false, ..self }, Seq::empty()),
        }
    }

    /// When a task of the plan, which is `p` then, is sent to the agent as
    /// `request`.
    pub open spec fn task_started(
        self,
        p: PlanView,
        request: Seq<char>,
        stamps: Seq<Stamp>,
    ) -> Outcome {
        let next = AppView { plan: Some(p), ..self };
        let (after, effects) = next.sent(request, stamps);
        (after, next.saving() + effects)
    }

    /// When no task of the plan `p` is left to be done.
    pub open spec fn plan_done(self, p: PlanView, stamps: Seq<Stamp>) -> Outcome {
        let next = AppView {
            plan: Some(PlanView { status: PlanStatus::Completed, ..p }),
            executing: false,
            ..self
        };
        (next.told(plan::done_text(p), stamps), next.saving())
    }

    /// When the tasks of the plan were put in order, or cannot be: the first
    /// pending task is sent to the agent, or else the plan is done.
    pub open spec fn tasks_ordered(
        self,
        order: Option<Seq<usize>>,
        stamps: Seq<Stamp>,
    ) -> Outcome {
        match self.plan {
            None => (AppView { executing: false, ..self }, Seq::empty()),
            Some(p) => match order {
                None => (
                    AppView { executing: false, ..self }.failed(CIRCULAR@),
                    Seq::empty(),
                ),
                Some(o) => match plan::with_next_started(p, o) {
                    Some((next, request)) => self.task_started(next, request, stamps),
                    None => self.plan_done(p, stamps),
                },
            },
        }
    }

    /// With the answer of the agent, which came at the time `at`, on the screen.
    pub open spec fn answer_shown(self, r: ResponseView, at: Timestamp) -> AppView {
        AppView {
            messages: self.messages.push(
                ShownView {
                    thinking_text: r.thinking_text,
                    token_count: Some(r.tokens() as i32),
                    cost: Some(r.cost),
                    provider_name: Some(r.provider_name),
                    perf_metrics: r.perf_metrics,
                    tokens_per_second: r.tokens_per_second,
                    ..message::plain(
                        "assistant"@,
                        r.content,
                        Stamp { id: r.message_id, timestamp: at },
                    )
                },
            ),
            scroll_offset: 0,
            ..self
        }
    }

    /// When an answer was taken: the next task of the plan is to be done, unless
    /// one has failed; where no plan is carried out, one is looked for.
    pub open spec fn went_on(self, task_failed: bool, stamps: Seq<Stamp>) -> Outcome {
        if self.executing {
            if task_failed {
                (AppView { executing: false, ..self }.told(STOPPED@, stamps), Seq::empty())
            } else {
                self.next_task()
            }
        } else {
            self.look_for_plan(false)
        }
    }

    /// With nothing outstanding, and the answer, which came at the time `at`, noted
    /// in the plan that is carried out. The second part says whether its task has
    /// failed.
    pub open spec fn answer_noted(self, content: Seq<char>, at: Timestamp) -> (AppView, bool) {
        let idle = AppView { is_processing: false, streaming: None, processing: None, ..self };
        match self.plan {
            Some(p) if self.executing => {
                let (next, task_failed) = plan::with_answer(p, text::lowercase(content), at);
                (AppView { plan: Some(next), ..idle }, task_failed)
            },
            _ => (idle, false),
        }
    }

    /// When the agent has answered.
    pub open spec fn answered(self, r: ResponseView, stamps: Seq<Stamp>) -> Outcome {
        let at = stamps[self.messages.len() as int].timestamp;
        let (noted, task_failed) = self.answer_noted(r.content, at);
        let saved = if self.executing {
            noted.saving()
        } else {
            Seq::empty()
        };
        let (named, stored) = noted.answer_shown(r, at).named_by(r.model, r.provider_name);
        let (after, more) = named.went_on(task_failed, stamps);
        (after, saved + stored + more)
    }

    /// With the model and the provider noted in the session, where they are not
    /// yet.
    pub open spec fn named_by(self, model: Seq<char>, provider: Seq<char>) -> Outcome {
        match self.session {
            Some(s) if s.model is None || s.provider is None => (
                AppView {
                    session: Some(
                        SessionView {
                            model: match s.model {
                                Some(m) => Some(m),
                                None => Some(model),
                            },
                            provider: match s.provider {
                                Some(p) => Some(p),
                                None => Some(provider),
                            },
                            ..s
                        },
                    ),
                    ..self
                },
                seq![EffectView::SaveSession],
            ),
            _ => (self, Seq::empty()),
        }
    }

    /// When a plan is looked for, to be shown or to be offered.
    pub open spec fn look_for_plan(self, to_view: bool) -> Outcome {
        match self.session {
            Some(s) => (self, seq![EffectView::FindPlan { session: s.id, to_view }]),
            None => if to_view {
                (self.plan_shown(), Seq::empty())
            } else {
                (self, Seq::empty())
            },
        }
    }

    /// With the plan on the screen, if there is one.
    pub open spec fn plan_shown(self) -> AppView {
        if self.plan is Some {
            AppView { mode: AppMode::Plan, ..self }
        } else {
            AppView { error: Some(NO_PLAN@), ..self }
        }
    }

    /// With a plan that waits for approval, unless there is a plan already.
    pub open spec fn plan_offered(self, p: PlanView, stamps: Seq<Stamp>) -> AppView {
        if p.status == PlanStatus::PendingApproval && self.plan is None {
            AppView { plan: Some(p), ..self }.told(plan::ready_text(p), stamps)
        } else {
            self
        }
    }

    /// When the database was looked into for a plan. What is not there is looked
    /// for in a file.
    pub open spec fn plan_in_database(
        self,
        to_view: bool,
        found: Option<PlanView>,
        stamps: Seq<Stamp>,
    ) -> Outcome {
        match found {
            Some(p) => if to_view {
                (AppView { plan: Some(p), ..self }.plan_shown(), Seq::empty())
            } else {
                (self.plan_offered(p, stamps), Seq::empty())
            },
            None => match self.session {
                Some(s) => (
                    self,
                    seq![EffectView::ReadPlanFile { file_name: plan_file_name(s.id), to_view }],
                ),
                None => if to_view {
                    (self.plan_shown(), Seq::empty())
                } else {
                    (self, Seq::empty())
                },
            },
        }
    }

    /// When a file was looked into for a plan. What is taken from it is stored
    /// in the database.
    pub open spec fn plan_in_file(
        self,
        to_view: bool,
        found: Option<PlanView>,
        stamps: Seq<Stamp>,
    ) -> Outcome {
        match found {
            Some(p) => if to_view {
                (
                    AppView { plan: Some(p), ..self }.plan_shown(),
                    seq![EffectView::MigratePlan { plan: p }],
                )
            } else if p.status == PlanStatus::PendingApproval {
                (self.plan_offered(p, stamps), seq![EffectView::MigratePlan { plan: p }])
            } else {
                (self, Seq::empty())
            },
            None => if to_view {
                (self.plan_shown(), Seq::empty())
            } else {
                (self, Seq::empty())
            },
        }
    }

    /// When the current task could not be done.
    pub open spec fn task_failed(self, error: Seq<char>) -> Outcome {
        let stopped = AppView { executing: false, ..self };
        match self.plan {
            Some(p) => {
                let next = AppView { plan: Some(plan::with_failure(p, error)), ..stopped };
                (next, next.saving())
            },
            None => (stopped, Seq::empty()),
        }
    }

    /// When a part of an answer came in for the session `session`.
    pub open spec fn on_chunk(self, session: u128, chunk: Seq<char>) -> AppView {
        if self.current_id() != Some(session) {
            self
        } else {
            match self.streaming {
                Some(s) => AppView { streaming: Some(s + chunk), ..self },
                None => AppView { streaming: Some(chunk), scroll_offset: 0, ..self },
            }
        }
    }

    /// When an outstanding answer came to an end for a session that is not on
    /// the screen.
    pub open spec fn dropped(self, session: u128) -> AppView {
        if self.processing == Some(session) {
            AppView { processing: None, ..self }
        } else {
            self
        }
    }

    /// When the agent has answered for the session `session`.
    pub open spec fn on_complete(
        self,
        session: u128,
        r: ResponseView,
        stamps: Seq<Stamp>,
    ) -> Outcome {
        if self.current_id() == Some(session) {
            self.answered(r, stamps)
        } else {
            (self.dropped(session), Seq::empty())
        }
    }

    /// When the agent could not answer for the session `session`.
    pub open spec fn on_error(self, session: u128, error: Seq<char>) -> Outcome {
        if self.current_id() == Some(session) {
            if self.executing {
                let (next, effects) = self.task_failed(error);
                (next.failed(error), effects)
            } else {
                (self.failed(error), Seq::empty())
            }
        } else {
            (self.dropped(session), Seq::empty())
        }
    }

    /// When time goes on. A request for approval that was not answered in time
    /// is denied.
    pub open spec fn on_tick(self, timed_out: bool) -> Outcome {
        let ticked = AppView {
            frame: if self.frame == usize::MAX {
                0
            } else {
                (self.frame + 1) as usize
            },
            ..self
        };
        match self.approval {
            Some(request) if timed_out => (
                AppView {
                    approval: None,
                    mode: AppMode::Chat,
                    error: Some(TIMED_OUT@),
                    ..ticked
                },
                seq![
                    EffectView::Respond {
                        request,
                        approved: false,
                        reason: Some(TIMED_OUT_REASON@),
                    },
                ],
            ),
            _ => (ticked, Seq::empty()),
        }
    }

    /// When approval is asked for.
    pub open spec fn approval_asked(self, request: u128) -> AppView {
        AppView {
            approval: Some(request),
            show_details: false,
            mode: AppMode::ToolApproval,
            ..self
        }
    }

    /// When a request for approval was answered.
    pub open spec fn approval_given(self) -> AppView {
        AppView {
            approval: None,
            show_details: false,
            mode: AppMode::Chat,
            scroll_offset: 0,
            ..self
        }
    }

    /// When a session was made.
    pub open spec fn session_created(self, s: SessionView) -> Outcome {
        (
            AppView {
                session: Some(
                    SessionView {
                        model: Some(self.provider_model),
                        provider: Some(self.provider_name),
                        ..s
                    },
                ),
                messages: Seq::empty(),
                scroll_offset: 0,
                mode: AppMode::Chat,
                ..self
            }.synced(),
            seq![EffectView::SaveSession, EffectView::ReloadSessions],
        )
    }

    /// When a session was read.
    pub open spec fn session_loaded(
        self,
        s: SessionView,
        messages: Seq<ShownView>,
        show_chat: bool,
    ) -> Outcome {
        let stamped = s.model is None;
        (
            AppView {
                session: Some(
                    if stamped {
                        SessionView {
                            model: Some(self.provider_model),
                            provider: Some(self.provider_name),
                            ..s
                        }
                    } else {
                        s
                    },
                ),
                messages,
                scroll_offset: 0,
                mode: if show_chat {
                    AppMode::Chat
                } else {
                    self.mode
                },
                ..self
            }.synced(),
            if stamped {
                seq![EffectView::SaveSession]
            } else {
                Seq::empty()
            },
        )
    }

    /// When the messages of the session are to be cleared.
    pub open spec fn clearing(self) -> Outcome {
        if self.busy_here() {
            (AppView { error: Some(CLEAR_BUSY@), ..self }, Seq::empty())
        } else {
            match self.session {
                Some(s) => (self, seq![EffectView::DeleteMessages { session: s.id }]),
                None => (self, Seq::empty()),
            }
        }
    }

    /// When the messages of the session were deleted.
    pub open spec fn cleared(self) -> AppView {
        AppView {
            messages: Seq::empty(),
            scroll_offset: 0,
            streaming: None,
            error: None,
            ..self
        }
    }

    /// When a line that was submitted may be a command.
    pub open spec fn commanded(self, content: Seq<char>, stamps: Seq<Stamp>) -> Outcome {
        let t = text::trimmed(content);
        let word = command_word(content);
        if t.len() == 0 || t[0] != '/' {
            self.sent(content, stamps)
        } else if word == "/skills"@ {
            (self, seq![EffectView::ListSkills])
        } else if word == "/mcp"@ {
            AppView { mcp_selected: 0, ..self }.in_mode(AppMode::Mcp)
        } else if word == "/help"@ {
            self.in_mode(AppMode::Help)
        } else {
            (
                self,
                seq![
                    EffectView::ResolveSkill {
                        name: without_slashes(word),
                        content,
                        arguments: command_arguments(content),
                    },
                ],
            )
        }
    }

    /// When a skill was looked for. What names no skill is sent as it is.
    pub open spec fn skill_resolved(
        self,
        content: Seq<char>,
        arguments: Seq<char>,
        prompt: Option<Seq<char>>,
        stamps: Seq<Stamp>,
    ) -> Outcome {
        match prompt {
            Some(p) => if arguments.len() == 0 {
                self.sent(p, stamps)
            } else {
                self.sent(p + "\n\nAdditional arguments: "@ + arguments, stamps)
            },
            None => self.sent(content, stamps),
        }
    }

    /// When the skills were listed.
    pub open spec fn skills_listed(self, skills: Seq<Seq<char>>) -> AppView {
        AppView { skills, skills_selected: 0, mode: AppMode::Skills, ..self }
    }

    /// With another input.
    pub open spec fn with_input(self, input: InputView) -> AppView {
        AppView { input, ..self }
    }

    /// With other lines and another cursor in the input.
    pub open spec fn with_text(self, t: (Seq<Seq<char>>, (int, int))) -> AppView {
        self.with_input(self.input.with_text(t))
    }

    /// With the reasoning of the last message that has some shown or hidden.
    pub open spec fn thinking_toggled(self) -> AppView {
        match last_thinking(self.messages) {
            Some(i) => AppView {
                messages: self.messages.update(
                    i,
                    ShownView {
                        thinking_expanded: !self.messages[i].thinking_expanded,
                        ..self.messages[i]
                    },
                ),
                ..self
            },
            None => self,
        }
    }

    /// When a key was pressed in the chat.
    pub open spec fn chat_key(self, k: KeyPress, stamps: Seq<Stamp>) -> Outcome {
        let lines = self.input.lines;
        let cursor = self.input.cursor;
        let nothing = Seq::<EffectView>::empty();
        if k.bound.submit && !input::is_blank(lines) {
            let content = input::text_of(lines);
            self.with_input(
                self.input.with_text(input::empty_text()).submitted(content),
            ).commanded(content, stamps)
        } else if k.bound.newline {
            (self.with_text(input::with_newline(lines, cursor)), nothing)
        } else if k.bound.cancel {
            (AppView { error: None, ..self.with_text(input::empty_text()) }, nothing)
        } else if k.bound.page_up {
            (
                AppView {
                    scroll_offset: if self.scroll_offset + 10 <= usize::MAX {
                        (self.scroll_offset + 10) as usize
                    } else {
                        usize::MAX
                    },
                    ..self
                },
                nothing,
            )
        } else if k.bound.page_down {
            (
                AppView {
                    scroll_offset: if self.scroll_offset >= 10 {
                        (self.scroll_offset - 10) as usize
                    } else {
                        0
                    },
                    ..self
                },
                nothing,
            )
        } else if k.bound.copy_response {
            match last_assistant(self.messages) {
                Some(i) => (
                    self,
                    seq![EffectView::CopyResponse { content: self.messages[i].content }],
                ),
                None => (AppView { error: Some(NO_RESPONSE@), ..self }, nothing),
            }
        } else if k.bound.paste_clipboard {
            (self, seq![EffectView::ReadClipboard])
        } else {
            self.edit_key(k)
        }
    }

    /// When a key was pressed in the chat that is bound to nothing else.
    ///
    /// An `@` lists files, and a `t` in an empty input shows or hides the last
    /// reasoning; but not if they come with control and alt, as the third level
    /// of a keyboard gives them. Any other key edits the input.
    pub open spec fn edit_key(self, k: KeyPress) -> Outcome {
        if !(k.ctrl && k.alt) && k.code == KeyCode::Char('@') {
            (self, seq![EffectView::ListDirectory { path: self.picker.current_dir }])
        } else if !(k.ctrl && k.alt) && k.code == KeyCode::Char('t') && self.input.lines
            == input::empty_text().0 {
            (self.thinking_toggled(), Seq::empty())
        } else {
            (self.with_input(self.input.edited(k)), Seq::empty())
        }
    }

    /// When a key was pressed in the list of sessions.
    pub open spec fn sessions_key(self, k: KeyPress) -> Outcome {
        let nothing = Seq::<EffectView>::empty();
        if k.bound.cancel {
            self.in_mode(AppMode::Chat)
        } else if k.bound.up {
            (AppView { selected_session: dialogs::above(self.selected_session), ..self }, nothing)
        } else if k.bound.down {
            (
                AppView {
                    selected_session: dialogs::below(
                        self.selected_session,
                        1,
                        self.sessions.len(),
                    ),
                    ..self
                },
                nothing,
            )
        } else if k.bound.enter && self.selected_session < self.sessions.len() {
            (
                self,
                seq![
                    EffectView::LoadSession {
                        id: self.sessions[self.selected_session as int].id,
                        show_chat: true,
                    },
                ],
            )
        } else {
            (self, nothing)
        }
    }

    /// When a key was pressed in the list of skills.
    pub open spec fn skills_key(self, k: KeyPress) -> Outcome {
        if k.bound.cancel {
            self.in_mode(AppMode::Chat)
        } else if k.bound.up {
            (
                AppView { skills_selected: dialogs::above(self.skills_selected), ..self },
                Seq::empty(),
            )
        } else if k.bound.down && self.skills.len() > 0 {
            (
                AppView {
                    skills_selected: dialogs::below(self.skills_selected, 1, self.skills.len()),
                    ..self
                },
                Seq::empty(),
            )
        } else {
            (self, Seq::empty())
        }
    }

    /// When a key was pressed in the list of servers.
    pub open spec fn mcp_key(self, k: KeyPress) -> Outcome {
        if k.bound.cancel {
            self.in_mode(AppMode::Chat)
        } else if k.bound.up {
            (AppView { mcp_selected: dialogs::above(self.mcp_selected), ..self }, Seq::empty())
        } else if k.bound.down && self.mcp.len() > 0 {
            (
                AppView {
                    mcp_selected: dialogs::below(self.mcp_selected, 1, self.mcp.len()),
                    ..self
                },
                Seq::empty(),
            )
        } else {
            (self, Seq::empty())
        }
    }

    /// When the plan is approved: it is begun, and written to its file.
    pub open spec fn approved(self) -> Outcome {
        match self.plan {
            Some(p) => (
                AppView { plan: Some(PlanView { status: PlanStatus::InProgress, ..p }), ..self },
                seq![EffectView::ExportPlan { file_name: PLAN_FILE@ }],
            ),
            None => (self, Seq::empty()),
        }
    }

    /// When the plan is rejected: it is stored as such, and gone.
    pub open spec fn rejected(self) -> Outcome {
        match self.plan {
            Some(p) => {
                let noted = AppView {
                    plan: Some(PlanView { status: PlanStatus::Rejected, ..p }),
                    ..self
                };
                (AppView { plan: None, mode: AppMode::Chat, ..self }, noted.saving())
            },
            None => (self, Seq::empty()),
        }
    }

    /// When changes to the plan are asked for: the input says so, and the user
    /// goes on from there.
    pub open spec fn revising(self) -> AppView {
        match self.plan {
            Some(p) => AppView {
                mode: AppMode::Chat,
                ..self.with_text(input::entry_text(plan::revision_text(p)))
            },
            None => self,
        }
    }

    /// When the plan is scrolled.
    pub open spec fn plan_scrolled(self, code: KeyCode) -> AppView {
        match code {
            KeyCode::Up => AppView { plan_scroll: dialogs::above(self.plan_scroll), ..self },
            KeyCode::PageUp => AppView {
                plan_scroll: if self.plan_scroll >= 10 {
                    (self.plan_scroll - 10) as usize
                } else {
                    0
                },
                ..self
            },
            KeyCode::Down => match self.plan {
                Some(p) => AppView {
                    plan_scroll: dialogs::below(self.plan_scroll, 1, p.tasks.len()),
                    ..self
                },
                None => self,
            },
            KeyCode::PageDown => match self.plan {
                Some(p) => AppView {
                    plan_scroll: dialogs::below(self.plan_scroll, 10, p.tasks.len()),
                    ..self
                },
                None => self,
            },
            _ => self,
        }
    }

    /// When a key was pressed on a plan. Control and A approves it, R rejects
    /// it, and I asks for changes.
    pub open spec fn plan_key(self, k: KeyPress) -> Outcome {
        if k.bound.cancel {
            self.in_mode(AppMode::Chat)
        } else if k.ctrl && k.code == KeyCode::Char('a') {
            self.approved()
        } else if k.ctrl && k.code == KeyCode::Char('r') {
            self.rejected()
        } else if k.ctrl && k.code == KeyCode::Char('i') {
            (self.revising(), Seq::empty())
        } else {
            (self.plan_scrolled(k.code), Seq::empty())
        }
    }

    /// When an approved plan was written to its file: it is stored, and its
    /// first task is done.
    pub open spec fn plan_exported(self) -> Outcome {
        let next = AppView { mode: AppMode::Chat, executing: true, ..self };
        let (after, effects) = next.next_task();
        (after, self.saving() + effects)
    }

    /// When a key was pressed on a request for approval.
    pub open spec fn approval_key(self, k: KeyPress) -> Outcome {
        match self.approval {
            Some(request) => if k.bound.approve {
                (self, seq![EffectView::Respond { request, approved: true, reason: None }])
            } else if k.bound.deny || k.bound.cancel {
                (
                    self,
                    seq![
                        EffectView::Respond {
                            request,
                            approved: false,
                            reason: Some(DENIED_REASON@),
                        },
                    ],
                )
            } else if k.bound.view_details {
                (AppView { show_details: !self.show_details, ..self }, Seq::empty())
            } else {
                (self, Seq::empty())
            },
            None => (self, Seq::empty()),
        }
    }

    /// When a dialog reacted to a key.
    pub open spec fn reacted(self, r: ReactionView) -> Outcome {
        (
            AppView {
                mode: if r.close {
                    AppMode::Chat
                } else {
                    self.mode
                },
                ..self
            },
            r.effects,
        )
    }

    /// When a key was pressed in the file picker.
    pub open spec fn picker_key(self, k: KeyPress) -> Outcome {
        let (picker, r) = self.picker.on_key(k);
        AppView { picker, ..self }.reacted(r)
    }

    /// When a key was pressed in the dialog in which models are pulled.
    pub open spec fn download_key(self, k: KeyPress) -> Outcome {
        let (download, r) = self.download.on_key(k);
        AppView { download, ..self }.reacted(r)
    }

    /// When a key was pressed in the dialog for another model.
    pub open spec fn switch_key(self, k: KeyPress) -> Outcome {
        let (switch, r) = self.switch.on_key(k);
        AppView { switch, ..self }.reacted(r)
    }

    /// When a key was pressed in the dialog of model files.
    pub open spec fn local_key(self, k: KeyPress) -> Outcome {
        let (local, r) = self.local.on_key(k);
        AppView { local, ..self }.reacted(r)
    }

    /// When the download dialog is opened.
    pub open spec fn download_opened(self) -> Outcome {
        (
            AppView { download: self.download.opened(), mode: AppMode::ModelDownload, ..self },
            seq![EffectView::FilterSuggestions, EffectView::FetchInstalled { for_switch: false }],
        )
    }

    /// When the dialog for another model is opened.
    pub open spec fn switch_opened(self) -> Outcome {
        (
            AppView {
                switch: SwitchView { models: Seq::empty(), selected: 0, loading: true },
                mode: AppMode::ProviderSwitch,
                ..self
            },
            seq![EffectView::FetchInstalled { for_switch: true }],
        )
    }

    /// When the dialog of model files is opened.
    pub open spec fn local_opened(self) -> Outcome {
        (
            AppView { local: self.local.opened(), mode: AppMode::LlamaCppModelPicker, ..self },
            if self.local.wants_hardware() {
                seq![EffectView::ListLocalModels, EffectView::DetectHardware]
            } else {
                seq![EffectView::ListLocalModels]
            },
        )
    }

    /// When a key was pressed.
    pub open spec fn on_key(self, k: KeyPress, stamps: Seq<Stamp>) -> Outcome {
        let chat = self.mode == AppMode::Chat;
        if k.bound.quit {
            (AppView { should_quit: true, ..self }, Seq::empty())
        } else if k.bound.new_session {
            (self, seq![EffectView::CreateSession { title: NEW_CHAT@ }])
        } else if k.bound.list_sessions {
            self.in_mode(AppMode::Sessions)
        } else if k.bound.help {
            self.in_mode(AppMode::Help)
        } else if k.bound.clear_session {
            self.clearing()
        } else if k.bound.toggle_plan {
            if chat {
                self.look_for_plan(true)
            } else if self.mode == AppMode::Plan {
                self.in_mode(AppMode::Chat)
            } else {
                (self, Seq::empty())
            }
        } else if k.bound.toggle_auto_mode {
            (AppView { auto_mode: next_auto_mode(self.auto_mode), ..self }, Seq::empty())
        } else if k.bound.model_download && chat {
            self.download_opened()
        } else if k.bound.model_info && chat {
            self.in_mode(AppMode::ModelInfo)
        } else if k.bound.provider_switch && chat {
            self.switch_opened()
        } else if k.bound.llama_cpp_models && chat {
            self.local_opened()
        } else {
            self.mode_key(k, stamps)
        }
    }

    /// When a key was pressed that is not bound everywhere.
    pub open spec fn mode_key(self, k: KeyPress, stamps: Seq<Stamp>) -> Outcome {
        match self.mode {
            AppMode::Chat => self.chat_key(k, stamps),
            AppMode::Plan => self.plan_key(k),
            AppMode::Sessions => self.sessions_key(k),
            AppMode::ToolApproval => self.approval_key(k),
            AppMode::FilePicker => self.picker_key(k),
            AppMode::ModelDownload => self.download_key(k),
            AppMode::ProviderSwitch => self.switch_key(k),
            AppMode::LlamaCppModelPicker => self.local_key(k),
            AppMode::Skills => self.skills_key(k),
            AppMode::Mcp => self.mcp_key(k),
            _ => if k.bound.cancel {
                self.in_mode(AppMode::Chat)
            } else {
                (self, Seq::empty())
            },
        }
    }

    /// When text was pasted. It counts in the chat only.
    pub open spec fn pasted(self, s: Seq<char>) -> AppView {
        if self.mode == AppMode::Chat {
            self.with_text(input::with_str(self.input.lines, self.input.cursor, s))
        } else {
            self
        }
    }

    /// When the directory of the file picker was listed.
    pub open spec fn directory_listed(self, files: Seq<EntryView>) -> AppView {
        AppView { picker: self.picker.listed(files), mode: AppMode::FilePicker, ..self }
    }

    /// When it was seen what is at the path of the selected file. A directory is
    /// gone into, or up from; the path of a file is put into the input.
    pub open spec fn entry_opened(
        self,
        path: Seq<char>,
        is_dir: bool,
        is_up: bool,
        parent: Option<Seq<char>>,
    ) -> Outcome {
        if is_dir {
            let dir = if is_up {
                match parent {
                    Some(p) => p,
                    None => self.picker.current_dir,
                }
            } else {
                path
            };
            (
                AppView { picker: PickerView { current_dir: dir, ..self.picker }, ..self },
                seq![EffectView::ListDirectory { path: dir }],
            )
        } else {
            (
                AppView {
                    mode: AppMode::Chat,
                    ..self.with_text(
                        input::with_str(self.input.lines, self.input.cursor, path),
                    )
                },
                Seq::empty(),
            )
        }
    }

    /// When a model was pulled or could not be.
    pub open spec fn pull_finished(
        self,
        model: Seq<char>,
        error: Option<Seq<char>>,
        stamps: Seq<Stamp>,
    ) -> Outcome {
        (
            AppView {
                download: self.download.pulled(),
                mode: AppMode::Chat,
                ..self.told(
                    report(
                        "✅ Pulled '"@,
                        "' successfully."@,
                        "❌ Failed to pull '"@,
                        model,
                        error,
                    ),
                    stamps,
                )
            },
            seq![EffectView::FetchInstalled { for_switch: false }],
        )
    }

    /// When a model was deleted or could not be.
    pub open spec fn delete_finished(
        self,
        model: Seq<char>,
        error: Option<Seq<char>>,
        stamps: Seq<Stamp>,
    ) -> Outcome {
        (
            AppView {
                download: self.download.deleted(model, error is None),
                mode: AppMode::Chat,
                ..self.told(
                    report("🗑️ Deleted '"@, "'."@, "❌ Failed to delete '"@, model, error),
                    stamps,
                )
            },
            if error is None {
                seq![EffectView::FilterSuggestions]
            } else {
                Seq::empty()
            },
        )
    }

    /// When a model file was downloaded or could not be.
    pub open spec fn local_download_finished(
        self,
        source: Seq<char>,
        error: Option<Seq<char>>,
        stamps: Seq<Stamp>,
    ) -> Outcome {
        (
            AppView {
                local: LocalView { running: false, status: None, fraction: None, ..self.local },
                mode: AppMode::Chat,
                ..self.told(
                    report(
                        "✅ Downloaded '"@,
                        "' successfully."@,
                        "❌ Failed to download '"@,
                        source,
                        error,
                    ),
                    stamps,
                )
            },
            seq![EffectView::ListLocalModels],
        )
    }

    /// When a model file was deleted or could not be.
    pub open spec fn local_delete_finished(
        self,
        path: Seq<char>,
        name: Seq<char>,
        error: Option<Seq<char>>,
        stamps: Seq<Stamp>,
    ) -> AppView {
        AppView {
            local: self.local.deleted(path, error is None),
            mode: AppMode::Chat,
            ..self.told(
                report("🗑️ Deleted '"@, "'."@, "❌ Failed to delete '"@, name, error),
                stamps,
            )
        }
    }

    /// With another model noted in the session.
    pub open spec fn restamped(self, model: Seq<char>, provider: Seq<char>) -> Outcome {
        match self.session {
            Some(s) => (
                AppView {
                    session: Some(
                        SessionView { model: Some(model), provider: Some(provider), ..s },
                    ),
                    ..self
                },
                seq![EffectView::SaveSession],
            ),
            None => (self, Seq::empty()),
        }
    }

    /// With another provider.
    pub open spec fn provided_by(self, p: ProviderView) -> AppView {
        AppView {
            provider_name: p.name,
            provider_model: p.model,
            context_window: p.context_window,
            ..self
        }
    }

    /// With a model file in use, which is the configured one from then on.
    pub open spec fn local_adopted(self, path: Seq<char>, name: Seq<char>) -> Outcome {
        AppView {
            active_path: Some(path),
            config: match self.config {
                Some(c) => Some(ConfigView { model_path: path, ..c }),
                None => None,
            },
            ..self
        }.restamped(name, "llama-cpp"@)
    }

    /// With no model file being loaded any more, and with the one that was switched
    /// to in use, if there is one.
    pub open spec fn local_switched(
        self,
        path: Seq<char>,
        name: Seq<char>,
        outcome: SwitchOutcomeView,
    ) -> Outcome {
        let idle = AppView { local: LocalView { switching: None, ..self.local }, ..self };
        match outcome {
            SwitchOutcomeView::Switched(p) => idle.provided_by(p).local_adopted(path, name),
            _ => (idle, Seq::empty()),
        }
    }

    /// When a model file was switched to or could not be.
    pub open spec fn local_switch_finished(
        self,
        path: Seq<char>,
        name: Seq<char>,
        outcome: SwitchOutcomeView,
        stamps: Seq<Stamp>,
    ) -> Outcome {
        let (next, effects) = self.local_switched(path, name, outcome);
        (
            AppView { mode: AppMode::Chat, ..next.told(switch_text(name, outcome), stamps) },
            effects,
        )
    }

    /// When an installed model was switched to or could not be.
    pub open spec fn ollama_switch_finished(
        self,
        model: Seq<char>,
        outcome: SwitchOutcomeView,
        stamps: Seq<Stamp>,
    ) -> Outcome {
        match outcome {
            SwitchOutcomeView::Switched(p) => {
                let (next, effects) = self.provided_by(p).restamped(model, "ollama"@);
                (
                    AppView {
                        mode: AppMode::Chat,
                        ..next.told("✅ Switched to Ollama model '"@ + model + "'."@, stamps)
                    },
                    effects,
                )
            },
            SwitchOutcomeView::Failed(e) => (AppView { error: Some(e), ..self }, Seq::empty()),
            _ => (AppView { error: Some(SWITCH_BUSY@), ..self }, Seq::empty()),
        }
    }

    /// When the application starts: the session that was used last is read, or
    /// else one is made.
    pub open spec fn started(self, most_recent: Option<u128>) -> Outcome {
        (
            self,
            match most_recent {
                Some(id) => seq![
                    EffectView::LoadSession { id, show_chat: false },
                    EffectView::ReloadSessions,
                ],
                None => seq![
                    EffectView::CreateSession { title: NEW_CHAT@ },
                    EffectView::ReloadSessions,
                ],
            },
        )
    }

    /// Whether an event can happen in this state: the number of tokens of an
    /// answer for the session on the screen can be shown, and an order of tasks is
    /// one of the plan's tasks.
    pub open spec fn can_happen(self, e: TuiEvent) -> bool {
        match e {
            TuiEvent::ResponseComplete(session, r) => self.current_id() == Some(session) ==> r.fits(),
            TuiEvent::TasksOrdered(Some(order)) => self.has_tasks(order@),
            _ => true,
        }
    }

    /// Whether an order names tasks of the plan, where there is a plan.
    pub open spec fn has_tasks(self, order: Seq<usize>) -> bool {
        match self.plan {
            Some(p) => forall|k: int|
                0 <= k < order.len() ==> (#[trigger] order[k]) < p.tasks.len(),
            None => true,
        }
    }

    /// When something happened.
    pub open spec fn on_event(self, e: TuiEvent, stamps: Seq<Stamp>) -> Outcome {
        let nothing = Seq::<EffectView>::empty();
        match e {
            TuiEvent::Key(k) => if k.pressed {
                self.on_key(k, stamps)
            } else {
                (self, nothing)
            },
            TuiEvent::Paste(s) => (self.pasted(s@), nothing),
            TuiEvent::MessageSubmitted(content) => self.sent(content@, stamps),
            TuiEvent::ResponseChunk(session, chunk) => (self.on_chunk(session, chunk@), nothing),
            TuiEvent::ResponseComplete(session, r) => self.on_complete(session, r@, stamps),
            TuiEvent::Error(session, error) => self.on_error(session, error@),
            TuiEvent::SwitchMode(mode) => self.in_mode(mode),
            TuiEvent::SelectSession(id) => (
                self,
                seq![EffectView::LoadSession { id, show_chat: false }],
            ),
            TuiEvent::NewSession => (self, seq![EffectView::CreateSession { title: NEW_CHAT@ }]),
            TuiEvent::Quit => (AppView { should_quit: true, ..self }, nothing),
            TuiEvent::Tick { timed_out } => self.on_tick(timed_out),
            TuiEvent::ToolApprovalRequested(request) => (self.approval_asked(request), nothing),
            TuiEvent::ToolApprovalResponse => (self.approval_given(), nothing),
            TuiEvent::Resize(_, _) => (self, nothing),
            TuiEvent::AgentProcessing => (self, nothing),
            _ => self.on_model_event(e, stamps),
        }
    }

    /// When something happened to models, or is known of them now.
    pub open spec fn on_model_event(self, e: TuiEvent, stamps: Seq<Stamp>) -> Outcome {
        let nothing = Seq::<EffectView>::empty();
        match e {
            TuiEvent::OllamaModelsListed(models) => (
                AppView {
                    download: DownloadView {
                        installed: text::texts(models@),
                        selected: 0,
                        ..self.download
                    },
                    ..self
                },
                seq![EffectView::FilterSuggestions],
            ),
            TuiEvent::ProviderSwitchModelsListed(models) => (
                AppView {
                    switch: SwitchView {
                        models: text::texts(models@),
                        selected: 0,
                        loading: false,
                    },
                    ..self
                },
                nothing,
            ),
            TuiEvent::OllamaPullProgress { status, fraction } => (
                AppView {
                    download: DownloadView { status: Some(status@), fraction, ..self.download },
                    ..self
                },
                nothing,
            ),
            TuiEvent::OllamaPullFinished { model, error } => self.pull_finished(
                model@,
                types::opt_text(error),
                stamps,
            ),
            TuiEvent::OllamaDeleteFinished { model, error } => self.delete_finished(
                model@,
                types::opt_text(error),
                stamps,
            ),
            TuiEvent::LlamaCppModelsListed(models) => (
                AppView {
                    local: LocalView {
                        models: dialogs::local_views(models@),
                        selected: 0,
                        loading: false,
                        ..self.local
                    },
                    ..self
                },
                nothing,
            ),
            TuiEvent::LlamaCppHardwareDetected(hardware) => (
                AppView {
                    local: LocalView {
                        hardware: Some(hardware@),
                        hardware_loading: false,
                        ..self.local
                    },
                    ..self
                },
                nothing,
            ),
            TuiEvent::LlamaCppDownloadProgress { status, fraction } => (
                AppView {
                    local: LocalView { status: Some(status@), fraction, ..self.local },
                    ..self
                },
                nothing,
            ),
            TuiEvent::LlamaCppDownloadFinished { source, error } => self.local_download_finished(
                source@,
                types::opt_text(error),
                stamps,
            ),
            TuiEvent::LlamaCppDeleteFinished { path, name, error } => (
                self.local_delete_finished(path@, name@, types::opt_text(error), stamps),
                nothing,
            ),
            TuiEvent::LlamaCppSwitchFinished { path, name, outcome } => self.local_switch_finished(
                path@,
                name@,
                outcome@,
                stamps,
            ),
            TuiEvent::OllamaSwitchFinished { model, outcome } => self.ollama_switch_finished(
                model@,
                outcome@,
                stamps,
            ),
            _ => self.on_result(e, stamps),
        }
    }

    /// When something that was asked for was done.
    pub open spec fn on_result(self, e: TuiEvent, stamps: Seq<Stamp>) -> Outcome {
        let nothing = Seq::<EffectView>::empty();
        match e {
            TuiEvent::SessionsListed(sessions) => (
                AppView { sessions: events::session_views(sessions@), ..self },
                nothing,
            ),
            TuiEvent::SessionCreated(session) => self.session_created(session@),
            TuiEvent::SessionLoaded { session, messages, show_chat } => self.session_loaded(
                session@,
                Seq::new(messages@.len(), |i: int| message::stored_shown(messages@[i])),
                show_chat,
            ),
            TuiEvent::MessagesDeleted => (self.cleared(), nothing),
            TuiEvent::TasksOrdered(order) => self.tasks_ordered(
                match order {
                    Some(o) => Some(o@),
                    None => None,
                },
                stamps,
            ),
            TuiEvent::PlanInDatabase { to_view, plan } => self.plan_in_database(
                to_view,
                plan::opt_plan(plan),
                stamps,
            ),
            TuiEvent::PlanInFile { to_view, plan } => self.plan_in_file(
                to_view,
                plan::opt_plan(plan),
                stamps,
            ),
            TuiEvent::PlanExported => self.plan_exported(),
            TuiEvent::SkillsListed(skills) => (self.skills_listed(text::texts(skills@)), nothing),
            TuiEvent::SkillResolved { content, arguments, prompt } => self.skill_resolved(
                content@,
                arguments@,
                types::opt_text(prompt),
                stamps,
            ),
            TuiEvent::DirectoryListed { up, entries } => (
                self.directory_listed(files::with_way_up(up, entries@)),
                nothing,
            ),
            TuiEvent::EntryOpened { path, is_dir, is_up, parent } => self.entry_opened(
                path@,
                is_dir,
                is_up,
                types::opt_text(parent),
            ),
            TuiEvent::CopyFailed(e) => (
                AppView { error: Some("Couldn't copy to clipboard: "@ + e@), ..self },
                nothing,
            ),
            TuiEvent::ClipboardText(s) => (
                self.with_text(input::with_str(self.input.lines, self.input.cursor, s@)),
                nothing,
            ),
            TuiEvent::ClipboardFailed(e) => (
                AppView { error: Some("Couldn't read clipboard: "@ + e@), ..self },
                nothing,
            ),
            TuiEvent::SuggestionsFiltered(suggestions) => (
                AppView {
                    download: DownloadView {
                        suggestions: text::texts(suggestions@),
                        selected: 0,
                        ..self.download
                    },
                    ..self
                },
                nothing,
            ),
            _ => (self, nothing),
        }
    }
}

} // verus!
