//! The application.

use crate::ids;
use crate::llama_cpp::provider;
use crate::llama_cpp::provider::LlamaCppProviderConfig;
use crate::text;
use crate::tui::dialogs;
use crate::tui::dialogs::{DownloadView, LocalModels, LocalView, ModelDownload, ProviderSwitch};
use crate::tui::dialogs::{Reaction, SwitchView};
use crate::tui::effects;
use crate::tui::effects::{Effect, EffectView};
use crate::tui::events;
use crate::tui::events::{ActiveProvider, AgentResponse, Session, SwitchOutcome, TuiEvent};
use crate::tui::files;
use crate::tui::files::{FileEntry, FilePicker, PickerView};
use crate::tui::input;
use crate::tui::input::{ChatInput, InputView};
use crate::tui::keys::{KeyCode, KeyPress};
use crate::tui::laws;
use crate::tui::message;
use crate::tui::message::{DisplayMessage, ShownView, StoredMessage, Timestamp};
use crate::tui::model;
use crate::tui::model::{AppMode, AppView, AutoMode, Settings};
use crate::tui::plan;
use crate::tui::plan::{PlanDocument, PlanStatus};
use crate::types;
use vstd::prelude::*;
use vstd::string::*;

verus! {

/// The state of the application.
pub struct App {
    pub current_session: Option<Session>,
    pub messages: Vec<DisplayMessage>,
    pub sessions: Vec<Session>,
    pub mode: AppMode,
    pub input: ChatInput,
    /// How far up from the newest message the chat is scrolled.
    pub scroll_offset: usize,
    pub selected_session_index: usize,
    pub should_quit: bool,
    pub auto_mode: AutoMode,
    pub mcp_status: Vec<String>,
    /// Whether the session on the screen waits for an answer.
    pub is_processing: bool,
    /// What came in of the answer so far.
    pub streaming_response: Option<String>,
    pub error_message: Option<String>,
    /// The session for which an answer is outstanding, on the screen or not.
    pub processing_session: Option<u128>,
    pub animation_frame: usize,
    /// The request that waits for approval.
    pub pending_approval: Option<u128>,
    pub show_approval_details: bool,
    pub current_plan: Option<PlanDocument>,
    pub plan_scroll_offset: usize,
    pub selected_task_index: Option<usize>,
    /// Whether the tasks of the plan are sent to the agent one after another.
    pub executing_plan: bool,
    pub file_picker: FilePicker,
    pub model_download: ModelDownload,
    pub provider_switch: ProviderSwitch,
    pub llama_cpp: LocalModels,
    pub skills_list: Vec<String>,
    pub skills_selected: usize,
    pub mcp_selected: usize,
    pub provider_name: String,
    pub provider_model: String,
    pub provider_context_window: Option<u32>,
    pub llama_cpp_config: Option<LlamaCppProviderConfig>,
    /// The model file that is in use.
    pub llama_cpp_active_model_path: Option<String>,
    pub settings: Settings,
}

impl View for App {
    type V = AppView;

    open spec fn view(&self) -> AppView {
        AppView {
            session: events::opt_session(self.current_session),
            messages: message::shown(self.messages@),
            sessions: events::session_views(self.sessions@),
            mode: self.mode,
            input: self.input@,
            scroll_offset: self.scroll_offset,
            selected_session: self.selected_session_index,
            should_quit: self.should_quit,
            auto_mode: self.auto_mode,
            is_processing: self.is_processing,
            streaming: types::opt_text(self.streaming_response),
            error: types::opt_text(self.error_message),
            processing: self.processing_session,
            frame: self.animation_frame,
            approval: self.pending_approval,
            show_details: self.show_approval_details,
            plan: plan::opt_plan(self.current_plan),
            plan_scroll: self.plan_scroll_offset,
            executing: self.executing_plan,
            picker: self.file_picker@,
            download: self.model_download@,
            switch: self.provider_switch@,
            local: self.llama_cpp@,
            skills: text::texts(self.skills_list@),
            skills_selected: self.skills_selected,
            mcp: text::texts(self.mcp_status@),
            mcp_selected: self.mcp_selected,
            provider_name: self.provider_name@,
            provider_model: self.provider_model@,
            context_window: self.provider_context_window,
            active_path: types::opt_text(self.llama_cpp_active_model_path),
            config: provider::opt_config(self.llama_cpp_config),
            selected_task: self.selected_task_index,
            settings: self.settings,
        }
    }
}

/// The tokens of messages.
pub open spec fn token_sum(messages: Seq<ShownView>) -> int
    decreases messages.len(),
{
    if messages.len() == 0 {
        0
    } else {
        token_sum(messages.drop_last()) + match messages.last().token_count {
            Some(n) => n as int,
            None => 0,
        }
    }
}

proof fn lemma_role(messages: Seq<ShownView>, n: int)
    requires
        0 <= n <= messages.len(),
        forall|i: int| n <= i < messages.len() ==> (#[trigger] messages[i]).role != "assistant"@,
    ensures
        model::last_assistant(messages) == model::last_assistant(messages.take(n)),
    decreases messages.len() - n,
{
    if n < messages.len() {
        assert(messages.drop_last().take(n) =~= messages.take(n));
        assert forall|i: int| n <= i < messages.drop_last().len() implies (
        #[trigger] messages.drop_last()[i]).role != "assistant"@ by {
            assert(messages.drop_last()[i] == messages[i]);
        }
        assert(messages.last() == messages[messages.len() - 1]);
        lemma_role(messages.drop_last(), n);
    } else {
        assert(messages.take(n) =~= messages);
    }
}

proof fn lemma_thinking(messages: Seq<ShownView>, n: int)
    requires
        0 <= n <= messages.len(),
        forall|i: int|
            n <= i < messages.len() ==> (#[trigger] messages[i]).role != "assistant"@
                || messages[i].thinking_text is None,
    ensures
        model::last_thinking(messages) == model::last_thinking(messages.take(n)),
    decreases messages.len() - n,
{
    if n < messages.len() {
        assert(messages.drop_last().take(n) =~= messages.take(n));
        assert forall|i: int| n <= i < messages.drop_last().len() implies (
        #[trigger] messages.drop_last()[i]).role != "assistant"@
            || messages.drop_last()[i].thinking_text is None by {
            assert(messages.drop_last()[i] == messages[i]);
        }
        assert(messages.last() == messages[messages.len() - 1]);
        lemma_thinking(messages.drop_last(), n);
    } else {
        assert(messages.take(n) =~= messages);
    }
}

fn copy_option(s: &Option<String>) -> (r: Option<String>)
    ensures
        types::opt_text(r) == types::opt_text(*s),
{
    match s {
        Some(x) => Some(x.clone()),
        None => None,
    }
}

/// A text made of `a`, `b` and `c`.
fn concat(a: &str, b: &str, c: &str) -> (r: String)
    ensures
        r@ == a@ + b@ + c@,
{
    let mut r = a.to_string();
    r.append(b);
    r.append(c);
    r
}

/// A message about something that has or has not been done to `what`.
fn report(done: &str, done_end: &str, failed: &str, what: &str, error: &Option<String>) -> (r:
    String)
    ensures
        r@ == model::report(done@, done_end@, failed@, what@, types::opt_text(*error)),
{
    match error {
        None => concat(done, what, done_end),
        Some(e) => {
            let mut r = concat(failed, what, "': ");
            r.append(e.as_str());
            r
        },
    }
}

/// What is said of switching to the model file `name`.
fn switch_message(name: &str, outcome: &SwitchOutcome) -> (r: String)
    ensures
        r@ == model::switch_text(name@, outcome@),
{
    match outcome {
        SwitchOutcome::Switched(_) => concat("✅ Switched to '", name, "'."),
        SwitchOutcome::Busy => {
            let mut c = "❌ ".to_string();
            c.append(model::SWITCH_BUSY);
            c
        },
        SwitchOutcome::Lost => concat(
            "❌ Model '",
            name,
            "' loaded but the result was lost - try again.",
        ),
        SwitchOutcome::Failed(e) => {
            let mut c = concat("❌ Failed to load '", name, "': ");
            c.append(e.as_str());
            c
        },
    }
}

impl App {
    /// The input is in order.
    pub open spec fn wf(&self) -> bool {
        self.input.wf()
    }

    /// An application without a session, for a provider and its model. The
    /// directories are those it was started in and where model files are kept.
    pub fn new(
        provider: ActiveProvider,
        working_directory: String,
        models_dir: String,
    ) -> (r: Self)
        ensures
            r.wf(),
            laws::waits_rightly(r@),
            r@.session is None,
            r@.messages == Seq::<ShownView>::empty(),
            r@.sessions == Seq::<model::SessionView>::empty(),
            r@.mode == AppMode::Chat,
            r@.input == (InputView {
                lines: input::empty_text().0,
                cursor: input::empty_text().1,
                history: Seq::empty(),
                position: None,
                draft: None,
            }),
            r@.scroll_offset == 0,
            r@.selected_session == 0,
            !r@.should_quit,
            r@.auto_mode == AutoMode::Interactive,
            !r@.is_processing,
            r@.streaming is None,
            r@.error is None,
            r@.processing is None,
            r@.frame == 0,
            r@.approval is None,
            !r@.show_details,
            r@.plan is None,
            r@.plan_scroll == 0,
            !r@.executing,
            r@.picker == (PickerView {
                files: Seq::empty(),
                selected: 0,
                scroll_offset: 0,
                current_dir: working_directory@,
            }),
            r@.download == DownloadView::fresh(),
            r@.switch == (SwitchView { models: Seq::empty(), selected: 0, loading: false }),
            r@.local == LocalView::fresh(),
            r@.skills == Seq::<Seq<char>>::empty(),
            r@.skills_selected == 0,
            r@.mcp == Seq::<Seq<char>>::empty(),
            r@.mcp_selected == 0,
            r@.provider_name == provider@.name,
            r@.provider_model == provider@.model,
            r@.context_window == provider@.context_window,
            r@.active_path is None,
            r@.config is None,
            r@.selected_task is None,
            !r.settings.kitty_keyboard_protocol_active,
            r.settings.ollama_host@ == "http://localhost:11434"@,
            r.settings.llama_cpp_models_dir@ == models_dir@,
            r.settings.llama_cpp_extra_model_paths@.len() == 0,
            r.settings.llama_cpp_ollama_models_dir is None,
            r.settings.working_directory@ == working_directory@,
    {
        App {
            current_session: None,
            messages: Vec::new(),
            sessions: Vec::new(),
            mode: AppMode::Chat,
            input: ChatInput::new(),
            scroll_offset: 0,
            selected_session_index: 0,
            should_quit: false,
            auto_mode: AutoMode::Interactive,
            mcp_status: Vec::new(),
            is_processing: false,
            streaming_response: None,
            error_message: None,
            processing_session: None,
            animation_frame: 0,
            pending_approval: None,
            show_approval_details: false,
            current_plan: None,
            plan_scroll_offset: 0,
            selected_task_index: None,
            executing_plan: false,
            file_picker: FilePicker::new(working_directory.clone()),
            model_download: ModelDownload::new(),
            provider_switch: ProviderSwitch::new(),
            llama_cpp: LocalModels::new(),
            skills_list: Vec::new(),
            skills_selected: 0,
            mcp_selected: 0,
            provider_name: provider.name,
            provider_model: provider.model,
            provider_context_window: provider.context_window,
            llama_cpp_config: None,
            llama_cpp_active_model_path: None,
            settings: Settings {
                kitty_keyboard_protocol_active: false,
                ollama_host: "http://localhost:11434".to_string(),
                llama_cpp_models_dir: models_dir,
                llama_cpp_extra_model_paths: Vec::new(),
                llama_cpp_ollama_models_dir: None,
                working_directory,
            },
        }
    }

    /// Adds a message.
    fn push_message(&mut self, m: DisplayMessage)
        ensures
            final(self)@ == (AppView { messages: old(self)@.messages.push(m@), ..old(self)@ }),
            final(self)@.stamps()[old(self)@.messages.len() as int] == m@.stamp(),
            final(self).input == old(self).input,
    {
        let ghost before = message::shown(self.messages@);
        self.messages.push(m);
        assert(message::shown(self.messages@) =~= before.push(m@));
    }

    /// Adds a message of the application.
    fn tell(&mut self, content: String)
        ensures
            final(self)@ == old(self)@.told(content@, final(self)@.stamps()),
            final(self).input == old(self).input,
    {
        let m = message::notice("system", content);
        self.push_message(m);
    }

    /// Goes to another mode.
    pub fn switch_mode(&mut self, mode: AppMode) -> (r: Vec<Effect>)
        requires
            old(self).wf(),
        ensures
            final(self).wf(),
            (final(self)@, effects::effect_views(r@)) == old(self)@.in_mode(mode),
    {
        self.mode = mode;
        if mode == AppMode::Sessions {
            effects::only(Effect::ReloadSessions)
        } else {
            effects::nothing()
        }
    }

    /// Whether the session on the screen waits for an answer.
    fn is_busy_here(&self) -> (r: bool)
        ensures
            r == self@.busy_here(),
    {
        if !self.is_processing {
            return false;
        }
        match (&self.current_session, self.processing_session) {
            (Some(s), Some(id)) => s.id == id,
            (None, None) => true,
            _ => false,
        }
    }

    /// Sends a message to the agent, unless the session waits for an answer.
    pub fn send_message(&mut self, content: String) -> (r: Vec<Effect>)
        requires
            old(self).wf(),
        ensures
            final(self).wf(),
            (final(self)@, effects::effect_views(r@)) == old(self)@.sent(
                content@,
                final(self)@.stamps(),
            ),
    {
        if self.is_busy_here() {
            return effects::nothing();
        }
        let id: u128 = match &self.current_session {
            Some(s) => s.id,
            None => {
                return effects::nothing();
            },
        };
        self.is_processing = true;
        self.processing_session = Some(id);
        self.error_message = None;
        let m = message::notice("user", content.clone());
        self.push_message(m);
        self.scroll_offset = 0;
        effects::only(Effect::Send { session: id, content, read_only: self.mode == AppMode::Plan })
    }
}

impl App {
    /// Settles what is outstanding when another session came on the screen. What
    /// came in of an answer before that is not shown again.
    fn sync_processing_state_for_current_session(&mut self)
        ensures
            final(self)@ == old(self)@.synced(),
            final(self).input == old(self).input,
    {
        let waits = match (&self.current_session, self.processing_session) {
            (Some(s), Some(id)) => s.id == id,
            _ => false,
        };
        self.is_processing = waits;
        self.streaming_response = None;
    }

    /// Shows an error; nothing is outstanding any more.
    pub fn show_error(&mut self, error: String)
        requires
            old(self).wf(),
        ensures
            final(self).wf(),
            final(self)@ == old(self)@.failed(error@),
    {
        self.is_processing = false;
        self.streaming_response = None;
        self.processing_session = None;
        self.error_message = Some(error);
        self.scroll_offset = 0;
    }

    /// What stores the current plan.
    fn save_plan(&self) -> (r: Vec<Effect>)
        ensures
            effects::effect_views(r@) == self@.saving(),
    {
        match (&self.current_plan, &self.current_session) {
            (Some(p), Some(s)) => effects::only(
                Effect::SavePlan { session: s.id, plan: p.copy() },
            ),
            _ => effects::nothing(),
        }
    }

    /// Goes on with the next task of the plan.
    fn execute_next_plan_task(&mut self) -> (r: Vec<Effect>)
        ensures
            (final(self)@, effects::effect_views(r@)) == old(self)@.next_task(),
            final(self).messages == old(self).messages,
            final(self).input == old(self).input,
    {
        if self.current_plan.is_some() {
            effects::only(Effect::OrderTasks)
        } else {
            self.executing_plan = false;
            effects::nothing()
        }
    }

    /// Sends a task of the plan to the agent.
    fn start_task(&mut self, p: PlanDocument, request: String) -> (r: Vec<Effect>)
        requires
            old(self).wf(),
        ensures
            final(self).wf(),
            (final(self)@, effects::effect_views(r@)) == old(self)@.task_started(
                p@,
                request@,
                final(self)@.stamps(),
            ),
    {
        self.current_plan = Some(p);
        let mut r = self.save_plan();
        let more = self.send_message(request);
        effects::then_all(&mut r, more);
        r
    }

    /// Ends the plan.
    fn finish_plan(&mut self, p: PlanDocument) -> (r: Vec<Effect>)
        requires
            old(self).wf(),
        ensures
            final(self).wf(),
            (final(self)@, effects::effect_views(r@)) == old(self)@.plan_done(
                p@,
                final(self)@.stamps(),
            ),
    {
        let mut p = p;
        let done = p.done_message();
        p.complete();
        self.current_plan = Some(p);
        self.executing_plan = false;
        let r = self.save_plan();
        self.tell(done);
        r
    }

    /// Sends the first pending task of the plan to the agent, or ends the plan.
    pub fn on_tasks_ordered(&mut self, order: Option<Vec<usize>>) -> (r: Vec<Effect>)
        requires
            old(self).wf(),
            order is Some ==> old(self)@.has_tasks(order.unwrap()@),
        ensures
            final(self).wf(),
            (final(self)@, effects::effect_views(r@)) == old(self)@.tasks_ordered(
                match order {
                    Some(o) => Some(o@),
                    None => None,
                },
                final(self)@.stamps(),
            ),
    {
        let mut p = match self.current_plan.take() {
            Some(p) => p,
            None => {
                self.executing_plan = false;
                return effects::nothing();
            },
        };
        let order = match order {
            Some(o) => o,
            None => {
                self.current_plan = Some(p);
                self.executing_plan = false;
                self.show_error(model::CIRCULAR.to_string());
                return effects::nothing();
            },
        };
        match p.start_next(&order) {
            Some(request) => self.start_task(p, request),
            None => self.finish_plan(p),
        }
    }

    /// Notes in the plan that its current task could not be done, and stops.
    fn fail_current_plan_task(&mut self, error: &str) -> (r: Vec<Effect>)
        requires
            old(self).wf(),
        ensures
            final(self).wf(),
            (final(self)@, effects::effect_views(r@)) == old(self)@.task_failed(error@),
    {
        self.executing_plan = false;
        match self.current_plan.take() {
            Some(p) => {
                let mut p = p;
                p.take_failure(error);
                self.current_plan = Some(p);
                self.save_plan()
            },
            None => effects::nothing(),
        }
    }

    /// Notes the model and the provider in the session, where they are not yet.
    fn name_session(&mut self, model: &str, provider: &str) -> (r: Vec<Effect>)
        ensures
            (final(self)@, effects::effect_views(r@)) == old(self)@.named_by(model@, provider@),
            final(self).messages == old(self).messages,
            final(self).input == old(self).input,
    {
        match self.current_session.take() {
            Some(s) => {
                let mut s = s;
                let mut needs_save = false;
                if s.model.is_none() {
                    s.model = Some(model.to_string());
                    needs_save = true;
                }
                if s.provider.is_none() {
                    s.provider = Some(provider.to_string());
                    needs_save = true;
                }
                self.current_session = Some(s);
                if needs_save {
                    effects::only(Effect::SaveSession)
                } else {
                    effects::nothing()
                }
            },
            None => effects::nothing(),
        }
    }

    /// Looks for a plan, to show it or to offer it.
    fn look_for_plan(&mut self, to_view: bool) -> (r: Vec<Effect>)
        ensures
            (final(self)@, effects::effect_views(r@)) == old(self)@.look_for_plan(to_view),
            final(self).messages == old(self).messages,
            final(self).input == old(self).input,
    {
        match &self.current_session {
            Some(s) => effects::only(Effect::FindPlan { session: s.id, to_view }),
            None => {
                if to_view {
                    self.show_plan();
                }
                effects::nothing()
            },
        }
    }

    /// Shows the plan, if there is one.
    fn show_plan(&mut self)
        ensures
            final(self)@ == old(self)@.plan_shown(),
            final(self).messages == old(self).messages,
            final(self).input == old(self).input,
    {
        if self.current_plan.is_some() {
            self.mode = AppMode::Plan;
        } else {
            self.error_message = Some(model::NO_PLAN.to_string());
        }
    }

    /// Notes in the plan what the answer, which came at the time `at`, says of its
    /// current task. The result says whether the task failed.
    fn check_task_completion(&mut self, content: &str, at: Timestamp) -> (r: (bool, Vec<Effect>))
        ensures
            final(self)@ == (AppView {
                plan: match old(self)@.plan {
                    Some(p) => Some(plan::with_answer(p, text::lowercase(content@), at).0),
                    None => None,
                },
                ..old(self)@
            }),
            r.0 == (match old(self)@.plan {
                Some(p) => plan::with_answer(p, text::lowercase(content@), at).1,
                None => false,
            }),
            effects::effect_views(r.1@) == final(self)@.saving(),
            final(self).input == old(self).input,
    {
        match self.current_plan.take() {
            Some(p) => {
                let mut p = p;
                let lower = text::to_lowercase(content);
                let failed = p.take_answer(lower.as_str(), at);
                self.current_plan = Some(p);
                let r = self.save_plan();
                (failed, r)
            },
            None => (false, effects::nothing()),
        }
    }

    /// Takes note that nothing is outstanding, and of what the answer says of the
    /// plan that is carried out. The result says whether its task failed.
    fn note_answer(&mut self, content: &str, at: Timestamp) -> (r: (bool, Vec<Effect>))
        ensures
            (final(self)@, r.0) == old(self)@.answer_noted(content@, at),
            effects::effect_views(r.1@) == (if old(self)@.executing {
                final(self)@.saving()
            } else {
                Seq::empty()
            }),
            final(self).input == old(self).input,
    {
        self.is_processing = false;
        self.streaming_response = None;
        self.processing_session = None;
        if self.executing_plan {
            self.check_task_completion(content, at)
        } else {
            (false, effects::nothing())
        }
    }

    /// Shows the answer, which came at the time `at`, and notes the model and the
    /// provider in the session, where they are not yet.
    fn show_answer(&mut self, response: AgentResponse, at: Timestamp) -> (r: Vec<Effect>)
        requires
            response.fits(),
        ensures
            (final(self)@, effects::effect_views(r@)) == old(self)@.answer_shown(
                response@,
                at,
            ).named_by(response@.model, response@.provider_name),
            final(self).input == old(self).input,
    {
        let m = DisplayMessage {
            id: response.message_id,
            role: "assistant".to_string(),
            content: response.content,
            thinking_text: response.thinking_text,
            thinking_expanded: false,
            timestamp: at,
            token_count: Some(
                provider::to_signed(response.input_tokens) + provider::to_signed(
                    response.output_tokens,
                ),
            ),
            cost: Some(response.cost),
            provider_name: Some(response.provider_name.clone()),
            perf_metrics: response.perf_metrics,
            tokens_per_second: response.tokens_per_second,
        };
        self.push_message(m);
        self.scroll_offset = 0;
        self.name_session(response.model.as_str(), response.provider_name.as_str())
    }

    /// Goes on when an answer was taken. No message changes.
    fn go_on(&mut self, task_failed: bool) -> (r: Vec<Effect>)
        ensures
            (final(self)@, effects::effect_views(r@)) == old(self)@.went_on(
                task_failed,
                final(self)@.stamps(),
            ),
            old(self)@.messages.is_prefix_of(final(self)@.messages),
            final(self).input == old(self).input,
    {
        if self.executing_plan {
            if task_failed {
                self.executing_plan = false;
                self.tell(model::STOPPED.to_string());
                effects::nothing()
            } else {
                self.execute_next_plan_task()
            }
        } else {
            self.look_for_plan(false)
        }
    }

    /// Takes the answer of the agent for the session on the screen.
    pub fn complete_response(&mut self, response: AgentResponse) -> (r: Vec<Effect>)
        requires
            old(self).wf(),
            response.fits(),
        ensures
            final(self).wf(),
            (final(self)@, effects::effect_views(r@)) == old(self)@.answered(
                response@,
                final(self)@.stamps(),
            ),
    {
        let at: Timestamp = message::now();
        let (task_failed, mut r) = self.note_answer(response.content.as_str(), at);
        let stored = self.show_answer(response, at);
        effects::then_all(&mut r, stored);
        let ghost shown = self@.messages;
        let more = self.go_on(task_failed);
        effects::then_all(&mut r, more);
        proof {
            let n = shown.len() - 1;
            assert(self@.messages.subrange(0, n + 1)[n] == self@.messages[n]);
            assert(self@.stamps()[n] == shown[n].stamp());
        }
        r
    }

    /// Takes what the database has of a plan.
    pub fn on_plan_in_database(&mut self, to_view: bool, found: Option<PlanDocument>) -> (r: Vec<
        Effect,
    >)
        requires
            old(self).wf(),
        ensures
            final(self).wf(),
            (final(self)@, effects::effect_views(r@)) == old(self)@.plan_in_database(
                to_view,
                plan::opt_plan(found),
                final(self)@.stamps(),
            ),
    {
        match found {
            Some(p) => {
                if to_view {
                    self.current_plan = Some(p);
                    self.show_plan();
                } else {
                    self.offer_plan(p);
                }
                effects::nothing()
            },
            None => match &self.current_session {
                Some(s) => {
                    let id = ids::uuid_text(s.id);
                    let file_name = concat(".crustly_plan_", id.as_str(), ".json");
                    effects::only(Effect::ReadPlanFile { file_name, to_view })
                },
                None => {
                    if to_view {
                        self.show_plan();
                    }
                    effects::nothing()
                },
            },
        }
    }

    /// Takes what a file has of a plan.
    pub fn on_plan_in_file(&mut self, to_view: bool, found: Option<PlanDocument>) -> (r: Vec<
        Effect,
    >)
        requires
            old(self).wf(),
        ensures
            final(self).wf(),
            (final(self)@, effects::effect_views(r@)) == old(self)@.plan_in_file(
                to_view,
                plan::opt_plan(found),
                final(self)@.stamps(),
            ),
    {
        match found {
            Some(p) => {
                if to_view {
                    let r = effects::only(Effect::MigratePlan { plan: p.copy() });
                    self.current_plan = Some(p);
                    self.show_plan();
                    r
                } else if p.status == PlanStatus::PendingApproval {
                    let r = effects::only(Effect::MigratePlan { plan: p.copy() });
                    self.offer_plan(p);
                    r
                } else {
                    effects::nothing()
                }
            },
            None => {
                if to_view {
                    self.show_plan();
                }
                effects::nothing()
            },
        }
    }

    /// Takes a plan that waits for approval, unless there is a plan already.
    fn offer_plan(&mut self, p: PlanDocument)
        ensures
            final(self)@ == old(self)@.plan_offered(p@, final(self)@.stamps()),
            final(self).input == old(self).input,
    {
        if p.status == PlanStatus::PendingApproval && self.current_plan.is_none() {
            let ready = p.ready_message();
            self.current_plan = Some(p);
            self.tell(ready);
        }
    }

    /// Goes on with an approved plan that was written to its file.
    pub fn on_plan_exported(&mut self) -> (r: Vec<Effect>)
        requires
            old(self).wf(),
        ensures
            final(self).wf(),
            (final(self)@, effects::effect_views(r@)) == old(self)@.plan_exported(),
    {
        let mut r = self.save_plan();
        self.mode = AppMode::Chat;
        self.executing_plan = true;
        let more = self.execute_next_plan_task();
        effects::then_all(&mut r, more);
        r
    }

    /// Takes a part of an answer.
    pub fn append_streaming_chunk(&mut self, session: u128, chunk: String)
        requires
            old(self).wf(),
        ensures
            final(self).wf(),
            final(self)@ == old(self)@.on_chunk(session, chunk@),
    {
        if !self.event_belongs_to_current_session(session) {
            return;
        }
        match self.streaming_response.take() {
            Some(s) => {
                let mut s = s;
                s.append(chunk.as_str());
                self.streaming_response = Some(s);
            },
            None => {
                self.streaming_response = Some(chunk);
                self.scroll_offset = 0;
            },
        }
    }

    /// Whether a session is the one on the screen.
    pub fn event_belongs_to_current_session(&self, session: u128) -> (r: bool)
        ensures
            r == (self@.current_id() == Some(session)),
    {
        match &self.current_session {
            Some(s) => s.id == session,
            None => false,
        }
    }

    /// Notes that nothing is outstanding for a session that is not on the screen.
    fn drop_outstanding(&mut self, session: u128)
        ensures
            final(self)@ == old(self)@.dropped(session),
            final(self).input == old(self).input,
    {
        if let Some(id) = self.processing_session {
            if id == session {
                self.processing_session = None;
            }
        }
    }

    /// Takes the answer for a session.
    fn on_response(&mut self, session: u128, response: AgentResponse) -> (r: Vec<Effect>)
        requires
            old(self).wf(),
            old(self)@.current_id() == Some(session) ==> response.fits(),
        ensures
            final(self).wf(),
            (final(self)@, effects::effect_views(r@)) == old(self)@.on_complete(
                session,
                response@,
                final(self)@.stamps(),
            ),
    {
        if self.event_belongs_to_current_session(session) {
            self.complete_response(response)
        } else {
            self.drop_outstanding(session);
            effects::nothing()
        }
    }

    /// Takes the reason why there is no answer for a session.
    fn on_response_error(&mut self, session: u128, error: String) -> (r: Vec<Effect>)
        requires
            old(self).wf(),
        ensures
            final(self).wf(),
            (final(self)@, effects::effect_views(r@)) == old(self)@.on_error(session, error@),
    {
        if self.event_belongs_to_current_session(session) {
            let r = if self.executing_plan {
                self.fail_current_plan_task(error.as_str())
            } else {
                effects::nothing()
            };
            self.show_error(error);
            r
        } else {
            self.drop_outstanding(session);
            effects::nothing()
        }
    }

    /// Takes a step in time.
    fn on_tick(&mut self, timed_out: bool) -> (r: Vec<Effect>)
        requires
            old(self).wf(),
        ensures
            final(self).wf(),
            (final(self)@, effects::effect_views(r@)) == old(self)@.on_tick(timed_out),
    {
        self.animation_frame =
        if self.animation_frame == usize::MAX {
            0
        } else {
            self.animation_frame + 1
        };
        if !timed_out {
            return effects::nothing();
        }
        match self.pending_approval {
            Some(request) => {
                self.pending_approval = None;
                self.mode = AppMode::Chat;
                self.error_message = Some(model::TIMED_OUT.to_string());
                effects::only(
                    Effect::Respond {
                        request,
                        approved: false,
                        reason: Some(model::TIMED_OUT_REASON.to_string()),
                    },
                )
            },
            None => effects::nothing(),
        }
    }

    /// Takes a request for approval.
    pub fn handle_approval_requested(&mut self, request: u128)
        requires
            old(self).wf(),
        ensures
            final(self).wf(),
            final(self)@ == old(self)@.approval_asked(request),
    {
        self.pending_approval = Some(request);
        self.show_approval_details = false;
        self.mode = AppMode::ToolApproval;
    }

    /// Asks for a session at the start: the one that was used last, or a new
    /// one.
    pub fn initialize(&self, most_recent: Option<u128>) -> (r: Vec<Effect>)
        ensures
            effects::effect_views(r@) == self@.started(most_recent).1,
    {
        let mut r = match most_recent {
            Some(id) => effects::only(Effect::LoadSession { id, show_chat: false }),
            None => effects::only(Effect::CreateSession { title: model::NEW_CHAT.to_string() }),
        };
        effects::then_do(&mut r, Effect::ReloadSessions);
        proof {
            assert(effects::effect_views(r@) =~= self@.started(most_recent).1);
        }
        r
    }

    /// Takes a session that was made.
    pub fn on_session_created(&mut self, session: Session) -> (r: Vec<Effect>)
        requires
            old(self).wf(),
        ensures
            final(self).wf(),
            (final(self)@, effects::effect_views(r@)) == old(self)@.session_created(session@),
    {
        let mut session = session;
        session.model = Some(self.provider_model.clone());
        session.provider = Some(self.provider_name.clone());
        self.current_session = Some(session);
        self.messages = Vec::new();
        assert(message::shown(self.messages@) =~= Seq::empty());
        self.scroll_offset = 0;
        self.mode = AppMode::Chat;
        self.sync_processing_state_for_current_session();
        let mut r = effects::only(Effect::SaveSession);
        effects::then_do(&mut r, Effect::ReloadSessions);
        proof {
            assert(effects::effect_views(r@) =~= old(self)@.session_created(session@).1);
        }
        r
    }

    /// Takes a session that was read.
    pub fn on_session_loaded(
        &mut self,
        session: Session,
        messages: Vec<StoredMessage>,
        show_chat: bool,
    ) -> (r: Vec<Effect>)
        requires
            old(self).wf(),
        ensures
            final(self).wf(),
            (final(self)@, effects::effect_views(r@)) == old(self)@.session_loaded(
                session@,
                Seq::new(messages@.len(), |i: int| message::stored_shown(messages@[i])),
                show_chat,
            ),
    {
        let mut session = session;
        let mut r = effects::nothing();
        if session.model.is_none() {
            session.model = Some(self.provider_model.clone());
            session.provider = Some(self.provider_name.clone());
            r = effects::only(Effect::SaveSession);
        }
        self.current_session = Some(session);
        self.messages = message::show_all(messages);
        self.scroll_offset = 0;
        if show_chat {
            self.mode = AppMode::Chat;
        }
        self.sync_processing_state_for_current_session();
        r
    }

    /// Clears the messages of the session, unless it waits for an answer.
    pub fn clear_session(&mut self) -> (r: Vec<Effect>)
        requires
            old(self).wf(),
        ensures
            final(self).wf(),
            (final(self)@, effects::effect_views(r@)) == old(self)@.clearing(),
    {
        if self.is_busy_here() {
            self.error_message = Some(model::CLEAR_BUSY.to_string());
            return effects::nothing();
        }
        match &self.current_session {
            Some(s) => effects::only(Effect::DeleteMessages { session: s.id }),
            None => effects::nothing(),
        }
    }

    /// Takes note that the messages of the session were deleted.
    fn on_messages_deleted(&mut self)
        requires
            old(self).wf(),
        ensures
            final(self).wf(),
            final(self)@ == old(self)@.cleared(),
    {
        self.messages = Vec::new();
        assert(message::shown(self.messages@) =~= Seq::empty());
        self.scroll_offset = 0;
        self.streaming_response = None;
        self.error_message = None;
    }
}

fn end_of_word(v: &Vec<char>) -> (r: usize)
    ensures
        r <= v@.len(),
        r == model::word_end(v@, 0),
{
    let mut i: usize = 0;
    while i < v.len() && !text::is_whitespace(v[i])
        invariant
            i <= v@.len(),
            model::word_end(v@, 0) == model::word_end(v@, i as int),
        decreases v@.len() - i,
    {
        i = i + 1;
    }
    i
}

fn start_behind_slashes(v: &Vec<char>) -> (r: usize)
    ensures
        r <= v@.len(),
        v@.skip(r as int) == model::without_slashes(v@),
{
    let mut i: usize = 0;
    assert(v@.skip(0) =~= v@);
    while i < v.len() && v[i] == '/'
        invariant
            i <= v@.len(),
            model::without_slashes(v@) == model::without_slashes(v@.skip(i as int)),
        decreases v@.len() - i,
    {
        assert(v@.skip(i as int).drop_first() =~= v@.skip(i + 1));
        i = i + 1;
    }
    i
}

/// A command: its first word, the name in that, and what follows it.
struct Command {
    word: String,
    name: String,
    arguments: String,
}

fn read_command(content: &str) -> (r: Command)
    ensures
        r.word@ == model::command_word(content@),
        r.name@ == model::without_slashes(model::command_word(content@)),
        r.arguments@ == model::command_arguments(content@),
{
    let trimmed = text::trim(content);
    let v = text::chars_of(trimmed.as_str());
    let end = end_of_word(&v);
    let word = text::string_of(&v, 0, end);
    assert(word@ =~= v@.take(end as int));
    let w = text::chars_of(word.as_str());
    let start = start_behind_slashes(&w);
    let name = text::string_of(&w, start, w.len());
    assert(name@ =~= w@.skip(start as int));
    let rest = text::string_of(&v, end, v.len());
    assert(rest@ =~= v@.skip(end as int));
    let arguments = text::trim(rest.as_str());
    Command { word, name, arguments }
}

impl App {
    /// Does what a submitted line says if it is a command, and sends it to the
    /// agent if it is not.
    pub fn try_handle_slash_command(&mut self, content: String) -> (r: Vec<Effect>)
        requires
            old(self).wf(),
        ensures
            final(self).wf(),
            (final(self)@, effects::effect_views(r@)) == old(self)@.commanded(
                content@,
                final(self)@.stamps(),
            ),
    {
        let trimmed = text::trim(content.as_str());
        let v = text::chars_of(trimmed.as_str());
        if v.len() == 0 || v[0] != '/' {
            return self.send_message(content);
        }
        let command = read_command(content.as_str());
        if text::same(command.word.as_str(), "/skills") {
            return effects::only(Effect::ListSkills);
        }
        if text::same(command.word.as_str(), "/mcp") {
            self.mcp_selected = 0;
            return self.switch_mode(AppMode::Mcp);
        }
        if text::same(command.word.as_str(), "/help") {
            return self.switch_mode(AppMode::Help);
        }
        effects::only(
            Effect::ResolveSkill { name: command.name, content, arguments: command.arguments },
        )
    }

    /// Sends what a skill asks of the agent, or what was submitted where there
    /// is no such skill.
    pub fn on_skill_resolved(
        &mut self,
        content: String,
        arguments: String,
        prompt: Option<String>,
    ) -> (r: Vec<Effect>)
        requires
            old(self).wf(),
        ensures
            final(self).wf(),
            (final(self)@, effects::effect_views(r@)) == old(self)@.skill_resolved(
                content@,
                arguments@,
                types::opt_text(prompt),
                final(self)@.stamps(),
            ),
    {
        match prompt {
            Some(p) => {
                if arguments.as_str().is_empty() {
                    self.send_message(p)
                } else {
                    let message = concat(
                        p.as_str(),
                        "\n\nAdditional arguments: ",
                        arguments.as_str(),
                    );
                    self.send_message(message)
                }
            },
            None => self.send_message(content),
        }
    }

    fn find_assistant(&self) -> (r: Option<usize>)
        ensures
            match r {
                Some(i) => i < self.messages@.len() && model::last_assistant(self@.messages)
                    == Some(i as int),
                None => model::last_assistant(self@.messages) is None,
            },
    {
        let ghost all = self@.messages;
        let mut i: usize = self.messages.len();
        while i > 0
            invariant
                i <= self.messages@.len(),
                all == self@.messages,
                forall|k: int| i <= k < all.len() ==> (#[trigger] all[k]).role != "assistant"@,
            decreases i,
        {
            if text::same(self.messages[i - 1].role.as_str(), "assistant") {
                proof {
                    lemma_role(all, i as int);
                    assert(all.take(i as int).last() == all[i - 1]);
                }
                return Some(i - 1);
            }
            i = i - 1;
        }
        proof {
            lemma_role(all, 0);
        }
        None
    }

    /// The last assistant message.
    pub fn last_assistant_message(&self) -> (r: Option<&DisplayMessage>)
        ensures
            match model::last_assistant(self@.messages) {
                Some(i) => r == Some(&self.messages@[i]),
                None => r is None,
            },
    {
        match self.find_assistant() {
            Some(i) => Some(&self.messages[i]),
            None => None,
        }
    }

    /// Shows or hides the reasoning of the last message that has some.
    pub fn toggle_thinking(&mut self)
        requires
            old(self).wf(),
        ensures
            final(self).wf(),
            final(self)@ == old(self)@.thinking_toggled(),
    {
        let ghost all = self@.messages;
        let mut i: usize = self.messages.len();
        while i > 0
            invariant
                i <= self.messages@.len(),
                all == self@.messages,
                *self == *old(self),
                old(self).wf(),
                forall|k: int|
                    i <= k < all.len() ==> (#[trigger] all[k]).role != "assistant"@
                        || all[k].thinking_text is None,
            decreases i,
        {
            let m = &self.messages[i - 1];
            assert(all[i - 1] == m@);
            if text::same(m.role.as_str(), "assistant") && m.thinking_text.is_some() {
                let flipped = DisplayMessage {
                    id: m.id,
                    role: m.role.clone(),
                    content: m.content.clone(),
                    thinking_text: copy_option(&m.thinking_text),
                    thinking_expanded: !m.thinking_expanded,
                    timestamp: m.timestamp,
                    token_count: m.token_count,
                    cost: m.cost,
                    provider_name: copy_option(&m.provider_name),
                    perf_metrics: m.perf_metrics,
                    tokens_per_second: m.tokens_per_second,
                };
                self.messages.set(i - 1, flipped);
                proof {
                    lemma_thinking(all, i as int);
                    assert(all.take(i as int).last() == all[i - 1]);
                    assert(message::shown(self.messages@) =~= all.update(i - 1, flipped@));
                }
                return;
            }
            i = i - 1;
        }
        proof {
            lemma_thinking(all, 0);
        }
    }

    /// Takes a key in the chat.
    pub fn handle_chat_key(&mut self, k: &KeyPress) -> (r: Vec<Effect>)
        requires
            old(self).wf(),
        ensures
            final(self).wf(),
            (final(self)@, effects::effect_views(r@)) == old(self)@.chat_key(
                *k,
                final(self)@.stamps(),
            ),
    {
        if k.bound.submit && !self.input.input_is_blank() {
            let content = self.input.input_text();
            self.input.clear_input();
            self.input.push_input_history(content.as_str());
            return self.try_handle_slash_command(content);
        }
        if k.bound.newline {
            self.input.newline();
            return effects::nothing();
        }
        if k.bound.cancel {
            self.input.clear_input();
            self.error_message = None;
            return effects::nothing();
        }
        if k.bound.page_up {
            self.scroll_offset =
            if self.scroll_offset <= usize::MAX - 10 {
                self.scroll_offset + 10
            } else {
                usize::MAX
            };
            return effects::nothing();
        }
        if k.bound.page_down {
            self.scroll_offset =
            if self.scroll_offset >= 10 {
                self.scroll_offset - 10
            } else {
                0
            };
            return effects::nothing();
        }
        if k.bound.copy_response {
            return self.copy_last_response_to_clipboard();
        }
        if k.bound.paste_clipboard {
            return effects::only(Effect::ReadClipboard);
        }
        self.handle_edit_key(k)
    }

    fn copy_last_response_to_clipboard(&mut self) -> (r: Vec<Effect>)
        requires
            old(self).wf(),
        ensures
            final(self).wf(),
            match model::last_assistant(old(self)@.messages) {
                Some(i) => final(self)@ == old(self)@ && effects::effect_views(r@) == seq![
                    EffectView::CopyResponse { content: old(self)@.messages[i].content },
                ],
                None => final(self)@ == (AppView {
                    error: Some(model::NO_RESPONSE@),
                    ..old(self)@
                }) && effects::effect_views(r@) == Seq::<EffectView>::empty(),
            },
    {
        match self.find_assistant() {
            Some(i) => {
                let content = self.messages[i].content.clone();
                effects::only(Effect::CopyResponse { content })
            },
            None => {
                self.error_message = Some(model::NO_RESPONSE.to_string());
                effects::nothing()
            },
        }
    }

    /// Takes a key in the chat that is bound to nothing else.
    fn handle_edit_key(&mut self, k: &KeyPress) -> (r: Vec<Effect>)
        requires
            old(self).wf(),
        ensures
            final(self).wf(),
            (final(self)@, effects::effect_views(r@)) == old(self)@.edit_key(*k),
    {
        if !(k.ctrl && k.alt) && k.code == KeyCode::Char('@') {
            return effects::only(
                Effect::ListDirectory { path: self.file_picker.current_dir.clone() },
            );
        }
        if !(k.ctrl && k.alt) && k.code == KeyCode::Char('t') && self.input.is_empty() {
            self.toggle_thinking();
        } else {
            self.input.edit(k);
        }
        effects::nothing()
    }
}

impl App {
    /// Takes a key in the list of sessions.
    pub fn handle_sessions_key(&mut self, k: &KeyPress) -> (r: Vec<Effect>)
        requires
            old(self).wf(),
        ensures
            final(self).wf(),
            (final(self)@, effects::effect_views(r@)) == old(self)@.sessions_key(*k),
    {
        if k.bound.cancel {
            return self.switch_mode(AppMode::Chat);
        }
        if k.bound.up {
            self.selected_session_index = dialogs::move_up(self.selected_session_index);
        } else if k.bound.down {
            self.selected_session_index = dialogs::move_down(
                self.selected_session_index,
                1,
                self.sessions.len(),
            );
        } else if k.bound.enter && self.selected_session_index < self.sessions.len() {
            return effects::only(
                Effect::LoadSession {
                    id: self.sessions[self.selected_session_index].id,
                    show_chat: true,
                },
            );
        }
        effects::nothing()
    }

    /// Takes a key in the list of skills.
    pub fn handle_skills_key(&mut self, k: &KeyPress) -> (r: Vec<Effect>)
        requires
            old(self).wf(),
        ensures
            final(self).wf(),
            (final(self)@, effects::effect_views(r@)) == old(self)@.skills_key(*k),
    {
        if k.bound.cancel {
            return self.switch_mode(AppMode::Chat);
        }
        if k.bound.up {
            self.skills_selected = dialogs::move_up(self.skills_selected);
        } else if k.bound.down && self.skills_list.len() > 0 {
            self.skills_selected = dialogs::move_down(self.skills_selected, 1, self.skills_list.len());
        }
        effects::nothing()
    }

    /// Takes a key in the list of servers.
    pub fn handle_mcp_key(&mut self, k: &KeyPress) -> (r: Vec<Effect>)
        requires
            old(self).wf(),
        ensures
            final(self).wf(),
            (final(self)@, effects::effect_views(r@)) == old(self)@.mcp_key(*k),
    {
        if k.bound.cancel {
            return self.switch_mode(AppMode::Chat);
        }
        if k.bound.up {
            self.mcp_selected = dialogs::move_up(self.mcp_selected);
        } else if k.bound.down && self.mcp_status.len() > 0 {
            self.mcp_selected = dialogs::move_down(self.mcp_selected, 1, self.mcp_status.len());
        }
        effects::nothing()
    }

    fn approve_plan(&mut self) -> (r: Vec<Effect>)
        requires
            old(self).wf(),
        ensures
            final(self).wf(),
            (final(self)@, effects::effect_views(r@)) == old(self)@.approved(),
    {
        match self.current_plan.take() {
            Some(p) => {
                let mut p = p;
                p.approve();
                p.start_execution();
                self.current_plan = Some(p);
                effects::only(Effect::ExportPlan { file_name: model::PLAN_FILE.to_string() })
            },
            None => effects::nothing(),
        }
    }

    fn reject_plan(&mut self) -> (r: Vec<Effect>)
        requires
            old(self).wf(),
        ensures
            final(self).wf(),
            (final(self)@, effects::effect_views(r@)) == old(self)@.rejected(),
    {
        match self.current_plan.take() {
            Some(p) => {
                let mut p = p;
                p.reject();
                self.current_plan = Some(p);
                let r = self.save_plan();
                self.current_plan = None;
                self.mode = AppMode::Chat;
                r
            },
            None => effects::nothing(),
        }
    }

    fn request_revision(&mut self)
        requires
            old(self).wf(),
        ensures
            final(self).wf(),
            final(self)@ == old(self)@.revising(),
    {
        let request = match &self.current_plan {
            Some(p) => p.revision_request(),
            None => {
                return;
            },
        };
        self.mode = AppMode::Chat;
        self.input.set_input_text(request.as_str());
    }

    fn scroll_plan(&mut self, code: KeyCode)
        requires
            old(self).wf(),
        ensures
            final(self).wf(),
            final(self)@ == old(self)@.plan_scrolled(code),
    {
        let total: usize = match &self.current_plan {
            Some(p) => {
                assert(p@.tasks.len() == p.tasks@.len());
                p.tasks.len()
            },
            None => 0,
        };
        match code {
            KeyCode::Up => {
                self.plan_scroll_offset = dialogs::move_up(self.plan_scroll_offset);
            },
            KeyCode::Down => {
                if self.current_plan.is_some() {
                    self.plan_scroll_offset =
                    dialogs::move_down(self.plan_scroll_offset, 1, total);
                }
            },
            KeyCode::PageUp => {
                self.plan_scroll_offset =
                if self.plan_scroll_offset >= 10 {
                    self.plan_scroll_offset - 10
                } else {
                    0
                };
            },
            KeyCode::PageDown => {
                if self.current_plan.is_some() {
                    self.plan_scroll_offset =
                    dialogs::move_down(self.plan_scroll_offset, 10, total);
                }
            },
            _ => {},
        }
    }

    /// Takes a key on a plan.
    pub fn handle_plan_key(&mut self, k: &KeyPress) -> (r: Vec<Effect>)
        requires
            old(self).wf(),
        ensures
            final(self).wf(),
            (final(self)@, effects::effect_views(r@)) == old(self)@.plan_key(*k),
    {
        if k.bound.cancel {
            return self.switch_mode(AppMode::Chat);
        }
        if k.ctrl && k.code == KeyCode::Char('a') {
            return self.approve_plan();
        }
        if k.ctrl && k.code == KeyCode::Char('r') {
            return self.reject_plan();
        }
        if k.ctrl && k.code == KeyCode::Char('i') {
            self.request_revision();
        } else {
            self.scroll_plan(k.code);
        }
        effects::nothing()
    }

    /// Takes a key on a request for approval.
    pub fn handle_approval_key(&mut self, k: &KeyPress) -> (r: Vec<Effect>)
        requires
            old(self).wf(),
        ensures
            final(self).wf(),
            (final(self)@, effects::effect_views(r@)) == old(self)@.approval_key(*k),
    {
        let request: u128 = match self.pending_approval {
            Some(request) => request,
            None => {
                return effects::nothing();
            },
        };
        if k.bound.approve {
            return effects::only(Effect::Respond { request, approved: true, reason: None });
        }
        if k.bound.deny || k.bound.cancel {
            return effects::only(
                Effect::Respond {
                    request,
                    approved: false,
                    reason: Some(model::DENIED_REASON.to_string()),
                },
            );
        }
        if k.bound.view_details {
            self.show_approval_details = !self.show_approval_details;
        }
        effects::nothing()
    }

    fn react(&mut self, r: Reaction) -> (e: Vec<Effect>)
        requires
            old(self).wf(),
        ensures
            final(self).wf(),
            (final(self)@, effects::effect_views(e@)) == old(self)@.reacted(r@),
    {
        if r.close {
            self.mode = AppMode::Chat;
        }
        r.effects
    }

    /// Takes a key in the file picker.
    pub fn handle_file_picker_key(&mut self, k: &KeyPress) -> (r: Vec<Effect>)
        requires
            old(self).wf(),
        ensures
            final(self).wf(),
            (final(self)@, effects::effect_views(r@)) == old(self)@.picker_key(*k),
    {
        let r = self.file_picker.on_key(k);
        self.react(r)
    }

    /// Takes a key in the dialog in which models are pulled.
    pub fn handle_model_download_key(&mut self, k: &KeyPress) -> (r: Vec<Effect>)
        requires
            old(self).wf(),
        ensures
            final(self).wf(),
            (final(self)@, effects::effect_views(r@)) == old(self)@.download_key(*k),
    {
        let r = self.model_download.on_key(k);
        self.react(r)
    }

    /// Takes a key in the dialog in which an installed model is switched to.
    pub fn handle_provider_switch_key(&mut self, k: &KeyPress) -> (r: Vec<Effect>)
        requires
            old(self).wf(),
        ensures
            final(self).wf(),
            (final(self)@, effects::effect_views(r@)) == old(self)@.switch_key(*k),
    {
        let r = self.provider_switch.on_key(k);
        self.react(r)
    }

    /// Takes a key in the dialog of model files.
    pub fn handle_llama_cpp_models_key(&mut self, k: &KeyPress) -> (r: Vec<Effect>)
        requires
            old(self).wf(),
        ensures
            final(self).wf(),
            (final(self)@, effects::effect_views(r@)) == old(self)@.local_key(*k),
    {
        let r = self.llama_cpp.on_key(k);
        self.react(r)
    }

    /// Opens the dialog in which models are pulled.
    pub fn open_model_download(&mut self) -> (r: Vec<Effect>)
        requires
            old(self).wf(),
        ensures
            final(self).wf(),
            (final(self)@, effects::effect_views(r@)) == old(self)@.download_opened(),
    {
        self.model_download.open();
        self.mode = AppMode::ModelDownload;
        let mut r = effects::only(Effect::FilterSuggestions);
        effects::then_do(&mut r, Effect::FetchInstalled { for_switch: false });
        proof {
            assert(effects::effect_views(r@) =~= old(self)@.download_opened().1);
        }
        r
    }

    /// Opens the dialog in which an installed model is switched to.
    pub fn open_provider_switch(&mut self) -> (r: Vec<Effect>)
        requires
            old(self).wf(),
        ensures
            final(self).wf(),
            (final(self)@, effects::effect_views(r@)) == old(self)@.switch_opened(),
    {
        self.provider_switch.open();
        self.mode = AppMode::ProviderSwitch;
        effects::only(Effect::FetchInstalled { for_switch: true })
    }

    /// Opens the dialog of model files.
    pub fn open_llama_cpp_models(&mut self) -> (r: Vec<Effect>)
        requires
            old(self).wf(),
        ensures
            final(self).wf(),
            (final(self)@, effects::effect_views(r@)) == old(self)@.local_opened(),
    {
        let detect = self.llama_cpp.open();
        self.mode = AppMode::LlamaCppModelPicker;
        let mut r = effects::only(Effect::ListLocalModels);
        if detect {
            effects::then_do(&mut r, Effect::DetectHardware);
        }
        proof {
            assert(effects::effect_views(r@) =~= old(self)@.local_opened().1);
        }
        r
    }

    /// Goes to the next level of doing things without asking.
    pub fn cycle_auto_mode(&mut self)
        requires
            old(self).wf(),
        ensures
            final(self).wf(),
            final(self)@ == (AppView {
                auto_mode: model::next_auto_mode(old(self)@.auto_mode),
                ..old(self)@
            }),
    {
        self.auto_mode =
        match self.auto_mode {
            AutoMode::Interactive => AutoMode::AutoPlan,
            AutoMode::AutoPlan => AutoMode::FullAuto,
            AutoMode::FullAuto => AutoMode::Interactive,
        };
    }

    /// Takes a key that was pressed.
    pub fn handle_key_event(&mut self, k: &KeyPress) -> (r: Vec<Effect>)
        requires
            old(self).wf(),
        ensures
            final(self).wf(),
            (final(self)@, effects::effect_views(r@)) == old(self)@.on_key(
                *k,
                final(self)@.stamps(),
            ),
    {
        let chat = self.mode == AppMode::Chat;
        if k.bound.quit {
            self.should_quit = true;
            return effects::nothing();
        }
        if k.bound.new_session {
            return effects::only(Effect::CreateSession { title: model::NEW_CHAT.to_string() });
        }
        if k.bound.list_sessions {
            return self.switch_mode(AppMode::Sessions);
        }
        if k.bound.help {
            return self.switch_mode(AppMode::Help);
        }
        if k.bound.clear_session {
            return self.clear_session();
        }
        if k.bound.toggle_plan {
            if chat {
                return self.look_for_plan(true);
            }
            if self.mode == AppMode::Plan {
                return self.switch_mode(AppMode::Chat);
            }
            return effects::nothing();
        }
        if k.bound.toggle_auto_mode {
            self.cycle_auto_mode();
            return effects::nothing();
        }
        if k.bound.model_download && chat {
            return self.open_model_download();
        }
        if k.bound.model_info && chat {
            return self.switch_mode(AppMode::ModelInfo);
        }
        if k.bound.provider_switch && chat {
            return self.open_provider_switch();
        }
        if k.bound.llama_cpp_models && chat {
            return self.open_llama_cpp_models();
        }
        self.handle_mode_key(k)
    }

    fn handle_mode_key(&mut self, k: &KeyPress) -> (r: Vec<Effect>)
        requires
            old(self).wf(),
        ensures
            final(self).wf(),
            (final(self)@, effects::effect_views(r@)) == old(self)@.mode_key(
                *k,
                final(self)@.stamps(),
            ),
    {
        match self.mode {
            AppMode::Chat => self.handle_chat_key(k),
            AppMode::Plan => self.handle_plan_key(k),
            AppMode::Sessions => self.handle_sessions_key(k),
            AppMode::ToolApproval => self.handle_approval_key(k),
            AppMode::FilePicker => self.handle_file_picker_key(k),
            AppMode::ModelDownload => self.handle_model_download_key(k),
            AppMode::ProviderSwitch => self.handle_provider_switch_key(k),
            AppMode::LlamaCppModelPicker => self.handle_llama_cpp_models_key(k),
            AppMode::Skills => self.handle_skills_key(k),
            AppMode::Mcp => self.handle_mcp_key(k),
            _ => {
                if k.bound.cancel {
                    self.switch_mode(AppMode::Chat)
                } else {
                    effects::nothing()
                }
            },
        }
    }
}

impl App {
    /// Puts text in that was pasted.
    fn on_paste(&mut self, s: &str)
        requires
            old(self).wf(),
        ensures
            final(self).wf(),
            final(self)@ == old(self)@.pasted(s@),
    {
        if self.mode == AppMode::Chat {
            self.input.insert(s);
        }
    }

    /// Shows the contents of a directory.
    pub fn open_file_picker(&mut self, up: Option<FileEntry>, entries: Vec<FileEntry>)
        requires
            old(self).wf(),
        ensures
            final(self).wf(),
            final(self)@ == old(self)@.directory_listed(files::with_way_up(up, entries@)),
    {
        self.file_picker.set_files(up, entries);
        self.mode = AppMode::FilePicker;
    }

    /// Goes into a directory, or puts the path of a file into the input.
    pub fn on_entry_opened(
        &mut self,
        path: String,
        is_dir: bool,
        is_up: bool,
        parent: Option<String>,
    ) -> (r: Vec<Effect>)
        requires
            old(self).wf(),
        ensures
            final(self).wf(),
            (final(self)@, effects::effect_views(r@)) == old(self)@.entry_opened(
                path@,
                is_dir,
                is_up,
                types::opt_text(parent),
            ),
    {
        if is_dir {
            if is_up {
                if let Some(p) = parent {
                    self.file_picker.current_dir = p;
                }
            } else {
                self.file_picker.current_dir = path;
            }
            effects::only(Effect::ListDirectory { path: self.file_picker.current_dir.clone() })
        } else {
            self.input.insert(path.as_str());
            self.mode = AppMode::Chat;
            effects::nothing()
        }
    }

    fn on_pull_finished(&mut self, model: String, error: Option<String>) -> (r: Vec<Effect>)
        requires
            old(self).wf(),
        ensures
            final(self).wf(),
            (final(self)@, effects::effect_views(r@)) == old(self)@.pull_finished(
                model@,
                types::opt_text(error),
                final(self)@.stamps(),
            ),
    {
        self.model_download.on_pulled();
        let content = report(
            "✅ Pulled '",
            "' successfully.",
            "❌ Failed to pull '",
            model.as_str(),
            &error,
        );
        self.tell(content);
        self.mode = AppMode::Chat;
        effects::only(Effect::FetchInstalled { for_switch: false })
    }

    fn on_delete_finished(&mut self, model: String, error: Option<String>) -> (r: Vec<Effect>)
        requires
            old(self).wf(),
        ensures
            final(self).wf(),
            (final(self)@, effects::effect_views(r@)) == old(self)@.delete_finished(
                model@,
                types::opt_text(error),
                final(self)@.stamps(),
            ),
    {
        let content = report(
            "🗑️ Deleted '",
            "'.",
            "❌ Failed to delete '",
            model.as_str(),
            &error,
        );
        self.tell(content);
        let gone = error.is_none();
        self.model_download.on_deleted(model.as_str(), gone);
        self.mode = AppMode::Chat;
        if gone {
            effects::only(Effect::FilterSuggestions)
        } else {
            effects::nothing()
        }
    }

    fn on_local_download_finished(&mut self, source: String, error: Option<String>) -> (r: Vec<
        Effect,
    >)
        requires
            old(self).wf(),
        ensures
            final(self).wf(),
            (final(self)@, effects::effect_views(r@)) == old(self)@.local_download_finished(
                source@,
                types::opt_text(error),
                final(self)@.stamps(),
            ),
    {
        self.llama_cpp.running = false;
        self.llama_cpp.status = None;
        self.llama_cpp.fraction = None;
        let content = report(
            "✅ Downloaded '",
            "' successfully.",
            "❌ Failed to download '",
            source.as_str(),
            &error,
        );
        self.tell(content);
        self.mode = AppMode::Chat;
        effects::only(Effect::ListLocalModels)
    }

    fn on_local_delete_finished(&mut self, path: String, name: String, error: Option<String>)
        requires
            old(self).wf(),
        ensures
            final(self).wf(),
            final(self)@ == old(self)@.local_delete_finished(
                path@,
                name@,
                types::opt_text(error),
                final(self)@.stamps(),
            ),
    {
        let content = report("🗑️ Deleted '", "'.", "❌ Failed to delete '", name.as_str(), &error);
        self.tell(content);
        self.llama_cpp.on_deleted(path.as_str(), error.is_none());
        self.mode = AppMode::Chat;
    }

    /// Notes another model in the session.
    fn restamp(&mut self, model: &str, provider: &str) -> (r: Vec<Effect>)
        ensures
            (final(self)@, effects::effect_views(r@)) == old(self)@.restamped(model@, provider@),
            final(self).input == old(self).input,
    {
        match self.current_session.take() {
            Some(s) => {
                let mut s = s;
                s.model = Some(model.to_string());
                s.provider = Some(provider.to_string());
                self.current_session = Some(s);
                effects::only(Effect::SaveSession)
            },
            None => effects::nothing(),
        }
    }

    /// Takes the model file that was switched to, if there is one.
    fn take_switched(&mut self, path: String, name: &str, outcome: SwitchOutcome) -> (r: Vec<
        Effect,
    >)
        ensures
            (final(self)@, effects::effect_views(r@)) == old(self)@.local_switched(
                path@,
                name@,
                outcome@,
            ),
            final(self).input == old(self).input,
    {
        self.llama_cpp.switching = None;
        match outcome {
            SwitchOutcome::Switched(p) => {
                self.set_agent_service(p);
                self.adopt_local(path, name)
            },
            _ => effects::nothing(),
        }
    }

    fn on_local_switch_finished(&mut self, path: String, name: String, outcome: SwitchOutcome) -> (r:
        Vec<Effect>)
        requires
            old(self).wf(),
        ensures
            final(self).wf(),
            (final(self)@, effects::effect_views(r@)) == old(self)@.local_switch_finished(
                path@,
                name@,
                outcome@,
                final(self)@.stamps(),
            ),
    {
        let content = switch_message(name.as_str(), &outcome);
        let r = self.take_switched(path, name.as_str(), outcome);
        self.tell(content);
        self.mode = AppMode::Chat;
        r
    }

    /// Notes a model file as the one in use, and as the configured one.
    fn adopt_local(&mut self, path: String, name: &str) -> (r: Vec<Effect>)
        ensures
            (final(self)@, effects::effect_views(r@)) == old(self)@.local_adopted(path@, name@),
            final(self).input == old(self).input,
    {
        self.llama_cpp_active_model_path = Some(path.clone());
        match self.llama_cpp_config.take() {
            Some(c) => {
                let mut c = c;
                c.model_path = path;
                self.llama_cpp_config = Some(c);
            },
            None => {},
        }
        self.restamp(name, "llama-cpp")
    }

    fn on_ollama_switch_finished(&mut self, model: String, outcome: SwitchOutcome) -> (r: Vec<
        Effect,
    >)
        requires
            old(self).wf(),
        ensures
            final(self).wf(),
            (final(self)@, effects::effect_views(r@)) == old(self)@.ollama_switch_finished(
                model@,
                outcome@,
                final(self)@.stamps(),
            ),
    {
        match outcome {
            SwitchOutcome::Switched(p) => {
                self.set_agent_service(p);
                let r = self.restamp(model.as_str(), "ollama");
                let content = concat("✅ Switched to Ollama model '", model.as_str(), "'.");
                self.tell(content);
                self.mode = AppMode::Chat;
                r
            },
            SwitchOutcome::Failed(e) => {
                self.error_message = Some(e);
                effects::nothing()
            },
            _ => {
                self.error_message = Some(model::SWITCH_BUSY.to_string());
                effects::nothing()
            },
        }
    }

    /// Takes what happened, and gives what is to be done about it.
    pub fn handle_event(&mut self, event: TuiEvent) -> (r: Vec<Effect>)
        requires
            old(self).wf(),
            old(self)@.can_happen(event),
        ensures
            final(self).wf(),
            (final(self)@, effects::effect_views(r@)) == old(self)@.on_event(
                event,
                final(self)@.stamps(),
            ),
    {
        match event {
            TuiEvent::Key(k) => {
                if k.pressed {
                    self.handle_key_event(&k)
                } else {
                    effects::nothing()
                }
            },
            TuiEvent::Paste(s) => {
                self.on_paste(s.as_str());
                effects::nothing()
            },
            TuiEvent::MessageSubmitted(content) => self.send_message(content),
            TuiEvent::ResponseChunk(session, chunk) => {
                self.append_streaming_chunk(session, chunk);
                effects::nothing()
            },
            TuiEvent::ResponseComplete(session, r) => self.on_response(session, r),
            TuiEvent::Error(session, error) => self.on_response_error(session, error),
            TuiEvent::SwitchMode(mode) => self.switch_mode(mode),
            TuiEvent::SelectSession(id) => effects::only(
                Effect::LoadSession { id, show_chat: false },
            ),
            TuiEvent::NewSession => effects::only(
                Effect::CreateSession { title: model::NEW_CHAT.to_string() },
            ),
            TuiEvent::Quit => {
                self.should_quit = true;
                effects::nothing()
            },
            TuiEvent::Tick { timed_out } => self.on_tick(timed_out),
            TuiEvent::ToolApprovalRequested(request) => {
                self.handle_approval_requested(request);
                effects::nothing()
            },
            TuiEvent::ToolApprovalResponse => {
                self.pending_approval = None;
                self.show_approval_details = false;
                self.mode = AppMode::Chat;
                self.scroll_offset = 0;
                effects::nothing()
            },
            TuiEvent::Resize(_, _) => effects::nothing(),
            TuiEvent::AgentProcessing => effects::nothing(),
            _ => self.handle_model_event(event),
        }
    }

    /// Takes what happened to models, or is known of them now.
    fn handle_model_event(&mut self, event: TuiEvent) -> (r: Vec<Effect>)
        requires
            old(self).wf(),
            old(self)@.can_happen(event),
        ensures
            final(self).wf(),
            (final(self)@, effects::effect_views(r@)) == old(self)@.on_model_event(
                event,
                final(self)@.stamps(),
            ),
    {
        match event {
            TuiEvent::OllamaModelsListed(models) => {
                self.model_download.installed = models;
                self.model_download.selected = 0;
                effects::only(Effect::FilterSuggestions)
            },
            TuiEvent::ProviderSwitchModelsListed(models) => {
                self.provider_switch.set_models(models);
                effects::nothing()
            },
            TuiEvent::OllamaPullProgress { status, fraction } => {
                self.model_download.fraction = fraction;
                self.model_download.status = Some(status);
                effects::nothing()
            },
            TuiEvent::OllamaPullFinished { model, error } => self.on_pull_finished(model, error),
            TuiEvent::OllamaDeleteFinished { model, error } => self.on_delete_finished(
                model,
                error,
            ),
            TuiEvent::LlamaCppModelsListed(models) => {
                self.llama_cpp.set_models(models);
                effects::nothing()
            },
            TuiEvent::LlamaCppHardwareDetected(hardware) => {
                self.llama_cpp.set_hardware(hardware);
                effects::nothing()
            },
            TuiEvent::LlamaCppDownloadProgress { status, fraction } => {
                self.llama_cpp.fraction = fraction;
                self.llama_cpp.status = Some(status);
                effects::nothing()
            },
            TuiEvent::LlamaCppDownloadFinished { source, error } => {
                self.on_local_download_finished(source, error)
            },
            TuiEvent::LlamaCppDeleteFinished { path, name, error } => {
                self.on_local_delete_finished(path, name, error);
                effects::nothing()
            },
            TuiEvent::LlamaCppSwitchFinished { path, name, outcome } => {
                self.on_local_switch_finished(path, name, outcome)
            },
            TuiEvent::OllamaSwitchFinished { model, outcome } => self.on_ollama_switch_finished(
                model,
                outcome,
            ),
            _ => self.handle_result(event),
        }
    }

    /// Takes what came of something that was asked for.
    fn handle_result(&mut self, event: TuiEvent) -> (r: Vec<Effect>)
        requires
            old(self).wf(),
            old(self)@.can_happen(event),
        ensures
            final(self).wf(),
            (final(self)@, effects::effect_views(r@)) == old(self)@.on_result(
                event,
                final(self)@.stamps(),
            ),
    {
        match event {
            TuiEvent::SessionsListed(sessions) => {
                self.sessions = sessions;
                effects::nothing()
            },
            TuiEvent::SessionCreated(session) => self.on_session_created(session),
            TuiEvent::SessionLoaded { session, messages, show_chat } => self.on_session_loaded(
                session,
                messages,
                show_chat,
            ),
            TuiEvent::MessagesDeleted => {
                self.on_messages_deleted();
                effects::nothing()
            },
            TuiEvent::TasksOrdered(order) => self.on_tasks_ordered(order),
            TuiEvent::PlanInDatabase { to_view, plan } => self.on_plan_in_database(to_view, plan),
            TuiEvent::PlanInFile { to_view, plan } => self.on_plan_in_file(to_view, plan),
            TuiEvent::PlanExported => self.on_plan_exported(),
            TuiEvent::SkillsListed(skills) => {
                self.skills_list = skills;
                self.skills_selected = 0;
                self.mode = AppMode::Skills;
                effects::nothing()
            },
            TuiEvent::SkillResolved { content, arguments, prompt } => self.on_skill_resolved(
                content,
                arguments,
                prompt,
            ),
            TuiEvent::DirectoryListed { up, entries } => {
                self.open_file_picker(up, entries);
                effects::nothing()
            },
            TuiEvent::EntryOpened { path, is_dir, is_up, parent } => self.on_entry_opened(
                path,
                is_dir,
                is_up,
                parent,
            ),
            TuiEvent::CopyFailed(e) => {
                let mut s = "Couldn't copy to clipboard: ".to_string();
                s.append(e.as_str());
                self.error_message = Some(s);
                effects::nothing()
            },
            TuiEvent::ClipboardText(s) => {
                self.input.insert(s.as_str());
                effects::nothing()
            },
            TuiEvent::ClipboardFailed(e) => {
                let mut s = "Couldn't read clipboard: ".to_string();
                s.append(e.as_str());
                self.error_message = Some(s);
                effects::nothing()
            },
            TuiEvent::SuggestionsFiltered(suggestions) => {
                self.model_download.set_suggestions(suggestions);
                effects::nothing()
            },
            _ => effects::nothing(),
        }
    }
}

/// What the header of a model file says.
#[derive(Clone, Debug)]
pub struct GgufHeader {
    pub quantization: Option<String>,
    pub context_length: Option<u64>,
    pub has_chat_template: bool,
}

/// What is shown of a model file: its quantization, its context length, and
/// whether it has a chat template. `header` is what its header says, if it can
/// be read, and `hint` the quantization that its name speaks of.
pub fn llama_cpp_model_header_summary_for_path(
    header: Option<GgufHeader>,
    hint: Option<String>,
) -> (r: (Option<String>, Option<u64>, bool))
    ensures
        types::opt_text(r.0) == (match header {
            Some(h) if h.quantization is Some => types::opt_text(h.quantization),
            _ => types::opt_text(hint),
        }),
        r.1 == (match header {
            Some(h) => h.context_length,
            None => None,
        }),
        r.2 == (match header {
            Some(h) => h.has_chat_template,
            None => false,
        }),
{
    match header {
        Some(h) => {
            let quantization = match h.quantization {
                Some(q) => Some(q),
                None => hint,
            };
            (quantization, h.context_length, h.has_chat_template)
        },
        None => (hint, None, false),
    }
}

/// What is shown of the model file in use.
#[derive(Clone, Debug)]
pub struct LlamaCppModelDetails {
    pub n_gpu_layers: u32,
    pub quantization_hint: Option<String>,
    pub context_length: Option<u64>,
    pub has_chat_template: bool,
}

/// The file whose header is to be read for that: the one in use, or else the
/// configured one. There is none where another provider is active or nothing is
/// configured.
pub open spec fn details_path(v: AppView) -> Option<Seq<char>> {
    match v.config {
        Some(c) if v.provider_name == "llama-cpp"@ => match v.active_path {
            Some(p) => Some(p),
            None => Some(c.model_path),
        },
        _ => None,
    }
}

impl App {
    /// The name of the provider.
    pub fn provider_name(&self) -> (r: &str)
        ensures
            r@ == self@.provider_name,
    {
        self.provider_name.as_str()
    }

    /// The model of the provider.
    pub fn provider_model(&self) -> (r: &str)
        ensures
            r@ == self@.provider_model,
    {
        self.provider_model.as_str()
    }

    /// How many tokens the model can look at, if it is known.
    pub fn provider_context_window(&self) -> (r: Option<u32>)
        ensures
            r == self@.context_window,
    {
        self.provider_context_window
    }

    /// The text of the input.
    pub fn input_text(&self) -> (r: String)
        ensures
            r@ == input::text_of(self@.input.lines),
    {
        self.input.input_text()
    }

    /// Takes another provider.
    pub fn set_agent_service(&mut self, provider: ActiveProvider)
        ensures
            final(self)@ == old(self)@.provided_by(provider@),
            final(self).messages == old(self).messages,
            final(self).input == old(self).input,
    {
        self.provider_name = provider.name;
        self.provider_model = provider.model;
        self.provider_context_window = provider.context_window;
    }

    /// Sets where models are pulled from.
    pub fn set_ollama_host(&mut self, host: String)
        ensures
            *final(self) == (App {
                settings: Settings { ollama_host: host, ..old(self).settings },
                ..*old(self)
            }),
    {
        self.settings.ollama_host = host;
    }

    /// Sets where model files are looked for, and downloaded to.
    pub fn set_llama_cpp_models_dir(&mut self, dir: String)
        ensures
            *final(self) == (App {
                settings: Settings { llama_cpp_models_dir: dir, ..old(self).settings },
                ..*old(self)
            }),
    {
        self.settings.llama_cpp_models_dir = dir;
    }

    /// Sets where else model files are looked for.
    pub fn set_llama_cpp_discovery_sources(
        &mut self,
        extra_model_paths: Vec<String>,
        ollama_models_dir: Option<String>,
    )
        ensures
            *final(self) == (App {
                settings: Settings {
                    llama_cpp_extra_model_paths: extra_model_paths,
                    llama_cpp_ollama_models_dir: ollama_models_dir,
                    ..old(self).settings
                },
                ..*old(self)
            }),
    {
        self.settings.llama_cpp_extra_model_paths = extra_model_paths;
        self.settings.llama_cpp_ollama_models_dir = ollama_models_dir;
    }

    /// Notes how model files are run. Where the provider that runs them is
    /// active, the configured file is the one in use.
    pub fn set_llama_cpp_config(&mut self, config: LlamaCppProviderConfig)
        requires
            old(self).wf(),
        ensures
            final(self).wf(),
            final(self)@ == (AppView {
                active_path: if old(self)@.provider_name == "llama-cpp"@ {
                    Some(config.model_path@)
                } else {
                    old(self)@.active_path
                },
                config: Some(config@),
                ..old(self)@
            }),
    {
        if text::same(self.provider_name.as_str(), "llama-cpp") {
            self.llama_cpp_active_model_path = Some(config.model_path.clone());
        }
        self.llama_cpp_config = Some(config);
    }

    /// The file whose header is to be read for [`App::llama_cpp_model_details`].
    pub fn llama_cpp_details_path(&self) -> (r: Option<String>)
        ensures
            types::opt_text(r) == details_path(self@),
    {
        if !text::same(self.provider_name.as_str(), "llama-cpp") {
            return None;
        }
        match &self.llama_cpp_config {
            Some(c) => match &self.llama_cpp_active_model_path {
                Some(p) => Some(p.clone()),
                None => Some(c.model_path.clone()),
            },
            None => None,
        }
    }

    /// What is shown of the model file in use. `header` and `hint` are what is
    /// known of it. There is nothing to show where another provider is active or
    /// nothing is configured.
    pub fn llama_cpp_model_details(&self, header: Option<GgufHeader>, hint: Option<String>) -> (r:
        Option<LlamaCppModelDetails>)
        ensures
            r is Some <==> self@.provider_name == "llama-cpp"@ && self@.config is Some,
            r is Some ==> {
                let d = r.unwrap();
                &&& d.n_gpu_layers == self@.config.unwrap().n_gpu_layers
                &&& types::opt_text(d.quantization_hint) == (match header {
                    Some(h) if h.quantization is Some => types::opt_text(h.quantization),
                    _ => types::opt_text(hint),
                })
                &&& d.context_length == (match header {
                    Some(h) => h.context_length,
                    None => None,
                })
                &&& d.has_chat_template == (match header {
                    Some(h) => h.has_chat_template,
                    None => false,
                })
            },
    {
        if !text::same(self.provider_name.as_str(), "llama-cpp") {
            return None;
        }
        let n_gpu_layers: u32 = match &self.llama_cpp_config {
            Some(c) => c.n_gpu_layers,
            None => {
                return None;
            },
        };
        let (quantization_hint, context_length, has_chat_template) =
            llama_cpp_model_header_summary_for_path(header, hint);
        Some(
            LlamaCppModelDetails {
                n_gpu_layers,
                quantization_hint,
                context_length,
                has_chat_template,
            },
        )
    }

    /// Notes whether the terminal can tell shift and enter from enter.
    pub fn set_kitty_keyboard_protocol_active(&mut self, active: bool)
        ensures
            *final(self) == (App {
                settings: Settings {
                    kitty_keyboard_protocol_active: active,
                    ..old(self).settings
                },
                ..*old(self)
            }),
    {
        self.settings.kitty_keyboard_protocol_active = active;
    }

    /// Sets how much is done without asking.
    pub fn set_auto_mode_state(&mut self, auto_mode: AutoMode)
        ensures
            *final(self) == (App { auto_mode, ..*old(self) }),
    {
        self.auto_mode = auto_mode;
    }

    /// How much is done without asking.
    pub fn auto_mode(&self) -> (r: AutoMode)
        ensures
            r == self@.auto_mode,
    {
        self.auto_mode
    }

    /// Notes the servers.
    pub fn set_mcp_status(&mut self, status: Vec<String>)
        ensures
            *final(self) == (App { mcp_status: status, ..*old(self) }),
    {
        self.mcp_status = status;
    }

    /// The tokens of the messages.
    pub fn total_tokens(&self) -> (r: i32)
        requires
            forall|k: int|
                0 <= k <= self@.messages.len() ==> i32::MIN <= token_sum(
                    #[trigger] self@.messages.take(k),
                ) <= i32::MAX,
        ensures
            r == token_sum(self@.messages),
    {
        let ghost all = self@.messages;
        let mut sum: i32 = 0;
        let mut i: usize = 0;
        while i < self.messages.len()
            invariant
                i <= self.messages@.len(),
                all == self@.messages,
                sum == token_sum(all.take(i as int)),
                forall|k: int|
                    0 <= k <= all.len() ==> i32::MIN <= token_sum(#[trigger] all.take(k))
                        <= i32::MAX,
            decreases self.messages@.len() - i,
        {
            proof {
                let next = all.take(i + 1);
                assert(next.drop_last() =~= all.take(i as int));
                assert(next.last() == self.messages@[i as int]@);
                assert(token_sum(next) <= i32::MAX);
            }
            if let Some(n) = self.messages[i].token_count {
                sum = sum + n;
            }
            i = i + 1;
        }
        assert(all.take(all.len() as int) =~= all);
        sum
    }
}

} // verus!
