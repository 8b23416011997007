use std::collections::HashMap;

use crustly::llama_cpp::provider::LlamaCppProviderConfig;
use crustly::tui::app::{llama_cpp_model_header_summary_for_path, App, GgufHeader};
use crustly::tui::dialogs::LocalModel;
use crustly::tui::effects::Effect;
use crustly::tui::events::{ActiveProvider, AgentResponse, Session, SwitchOutcome, TuiEvent};
use crustly::tui::files::FileEntry;
use crustly::tui::keys::{Bindings, KeyCode, KeyPress};
use crustly::tui::message::{DisplayMessage, StoredMessage};
use crustly::tui::model::{AppMode, AutoMode};
use crustly::tui::plan::{PlanDocument, PlanStatus, PlanTask, TaskStatus};
use crustly::types::Float64;

const CURATED: [&str; 3] = ["qwen2.5-coder:7b", "llama3.2:3b", "codellama:7b"];

fn float(value: f64) -> Float64 {
    Float64 { bits: value.to_bits() }
}

fn test_app() -> App {
    App::new(
        ActiveProvider {
            name: "dummy".to_string(),
            model: "dummy-model".to_string(),
            context_window: Some(4096),
        },
        "/work".to_string(),
        "/cache/crustly/models".to_string(),
    )
}

fn press(code: KeyCode, ctrl: bool, alt: bool, shift: bool) -> KeyPress {
    let mut bound = Bindings::none();
    let plain = !ctrl && !alt && !shift;
    match code {
        KeyCode::Enter => {
            bound.submit = !alt && !shift;
            bound.newline = alt || shift;
            bound.enter = plain;
        }
        KeyCode::Esc => bound.cancel = true,
        KeyCode::Up => bound.up = plain,
        KeyCode::Down => bound.down = plain,
        KeyCode::PageUp => bound.page_up = true,
        KeyCode::PageDown => bound.page_down = true,
        KeyCode::BackTab => bound.toggle_auto_mode = true,
        KeyCode::Char(c) if ctrl && !alt => match c {
            'c' => bound.quit = true,
            'n' => bound.new_session = true,
            'l' => bound.list_sessions = true,
            'h' => bound.help = true,
            'k' => bound.clear_session = true,
            'p' => bound.toggle_plan = true,
            'd' => bound.model_download = true,
            'o' => bound.model_info = true,
            'w' => bound.provider_switch = true,
            'g' => bound.llama_cpp_models = true,
            'y' => bound.copy_response = true,
            'v' => bound.paste_clipboard = true,
            _ => {}
        },
        KeyCode::Char('a') if plain => bound.approve = true,
        KeyCode::Char('d') if plain => bound.deny = true,
        KeyCode::Char('v') if plain => bound.view_details = true,
        _ => {}
    }
    KeyPress { code, ctrl, alt, shift, pressed: true, bound }
}

fn key(code: KeyCode) -> KeyPress {
    press(code, false, false, false)
}

fn ctrl(code: KeyCode) -> KeyPress {
    press(code, true, false, false)
}

fn type_text(app: &mut App, text: &str) {
    for c in text.chars() {
        app.handle_chat_key(&key(KeyCode::Char(c)));
    }
}

fn message(role: &str, content: &str) -> DisplayMessage {
    DisplayMessage {
        id: 1,
        role: role.to_string(),
        content: content.to_string(),
        thinking_text: None,
        thinking_expanded: false,
        timestamp: 0,
        token_count: None,
        cost: None,
        provider_name: None,
        perf_metrics: None,
        tokens_per_second: None,
    }
}

fn session(id: u128) -> Session {
    Session { id, title: Some("New Chat".to_string()), model: None, provider: None }
}

fn response(content: &str) -> AgentResponse {
    AgentResponse {
        message_id: 77,
        content: content.to_string(),
        thinking_text: None,
        model: "test-model".to_string(),
        provider_name: "test-provider".to_string(),
        input_tokens: 1,
        output_tokens: 1,
        cost: float(0.0),
        perf_metrics: None,
        tokens_per_second: None,
    }
}

fn task(id: u128, order: u64, title: &str, status: TaskStatus) -> PlanTask {
    PlanTask {
        id,
        order,
        title: title.to_string(),
        description: format!("Description {order}"),
        kind: "edit".to_string(),
        kind_name: "Edit".to_string(),
        complexity: 3,
        dependencies: Vec::new(),
        status,
        notes: None,
        completed_at: None,
    }
}

fn plan(status: PlanStatus, tasks: Vec<PlanTask>) -> PlanDocument {
    PlanDocument {
        id: 9,
        title: "Test plan".to_string(),
        description: "A plan".to_string(),
        context: String::new(),
        risks: Vec::new(),
        tasks,
        status,
    }
}

fn model_file(path: &str) -> LocalModel {
    LocalModel { path: path.to_string(), name: path.rsplit('/').next().unwrap().to_string() }
}

/// What is around an application: sessions, messages and skills in memory.
struct World {
    next_session: u128,
    sessions: HashMap<u128, Session>,
    messages: HashMap<u128, Vec<StoredMessage>>,
    skills: HashMap<String, String>,
    sent: Vec<(u128, String, bool)>,
    copied: Vec<String>,
    saved_plans: usize,
}

impl World {
    fn new() -> World {
        World {
            next_session: 100,
            sessions: HashMap::new(),
            messages: HashMap::new(),
            skills: HashMap::new(),
            sent: Vec::new(),
            copied: Vec::new(),
            saved_plans: 0,
        }
    }

    fn perform(&mut self, app: &mut App, effects: Vec<Effect>) {
        for effect in effects {
            let result = match effect {
                Effect::CreateSession { title } => {
                    let id = self.next_session;
                    self.next_session += 1;
                    let made = Session { title: Some(title), ..session(id) };
                    self.sessions.insert(id, made.clone());
                    TuiEvent::SessionCreated(made)
                }
                Effect::LoadSession { id, show_chat } => TuiEvent::SessionLoaded {
                    session: self.sessions[&id].clone(),
                    messages: self.messages.get(&id).cloned().unwrap_or_default(),
                    show_chat,
                },
                Effect::SaveSession => {
                    let current = app.current_session.clone().unwrap();
                    self.sessions.insert(current.id, current);
                    continue;
                }
                Effect::ReloadSessions => {
                    let mut all: Vec<Session> = self.sessions.values().cloned().collect();
                    all.sort_by_key(|s| s.id);
                    TuiEvent::SessionsListed(all)
                }
                Effect::DeleteMessages { session } => {
                    self.messages.remove(&session);
                    TuiEvent::MessagesDeleted
                }
                Effect::Send { session, content, read_only } => {
                    self.sent.push((session, content, read_only));
                    continue;
                }
                Effect::SavePlan { .. } => {
                    self.saved_plans += 1;
                    continue;
                }
                Effect::FindPlan { to_view, .. } => TuiEvent::PlanInDatabase { to_view, plan: None },
                Effect::ReadPlanFile { to_view, .. } => TuiEvent::PlanInFile { to_view, plan: None },
                Effect::ExportPlan { .. } => TuiEvent::PlanExported,
                Effect::OrderTasks => {
                    let count = app.current_plan.as_ref().unwrap().tasks.len();
                    TuiEvent::TasksOrdered(Some((0..count).collect()))
                }
                Effect::ListSkills => TuiEvent::SkillsListed(self.skills.keys().cloned().collect()),
                Effect::ResolveSkill { name, content, arguments } => TuiEvent::SkillResolved {
                    content,
                    arguments,
                    prompt: self.skills.get(&name).cloned(),
                },
                Effect::ListDirectory { .. } => {
                    TuiEvent::DirectoryListed { up: None, entries: Vec::new() }
                }
                Effect::CopyResponse { content } => {
                    self.copied.push(content);
                    continue;
                }
                Effect::FilterSuggestions => {
                    let input = app.model_download.input.to_lowercase();
                    let mut all: Vec<String> = CURATED.iter().map(|m| m.to_string()).collect();
                    for m in &app.model_download.installed {
                        if !all.contains(m) {
                            all.push(m.clone());
                        }
                    }
                    all.retain(|m| m.to_lowercase().contains(&input));
                    TuiEvent::SuggestionsFiltered(all)
                }
                _ => continue,
            };
            let more = app.handle_event(result);
            self.perform(app, more);
        }
    }

    fn happen(&mut self, app: &mut App, event: TuiEvent) {
        let effects = app.handle_event(event);
        self.perform(app, effects);
    }

    fn create_new_session(&mut self, app: &mut App) -> u128 {
        self.happen(app, TuiEvent::NewSession);
        app.current_session.as_ref().unwrap().id
    }
}

#[test]
fn test_display_message_from_db_message() {
    let msg = StoredMessage {
        id: 5,
        role: "user".to_string(),
        content: "Hello".to_string(),
        created_at: 1_700_000_000_000,
        token_count: Some(10),
        cost: Some(float(0.001)),
        provider_name: None,
        perf_metrics: None,
    };

    let display_msg: DisplayMessage = msg.into();
    assert_eq!(display_msg.role, "user");
    assert_eq!(display_msg.content, "Hello");
    assert_eq!(display_msg.token_count, Some(10));
    assert_eq!(display_msg.id, 5);
    assert_eq!(display_msg.timestamp, 1_700_000_000_000);
    assert!(!display_msg.thinking_expanded);
}

#[test]
fn llama_cpp_model_header_summary_for_path_reads_a_real_header_once() {
    let header = GgufHeader {
        quantization: Some("Q4_K_M".to_string()),
        context_length: Some(32768),
        has_chat_template: true,
    };
    let (quantization_hint, context_length, has_chat_template) =
        llama_cpp_model_header_summary_for_path(Some(header), None);
    assert_eq!(quantization_hint.as_deref(), Some("Q4_K_M"));
    assert_eq!(context_length, Some(32768));
    assert!(has_chat_template);
}

#[test]
fn llama_cpp_model_header_summary_for_path_degrades_cleanly_on_a_missing_file() {
    let (quantization_hint, context_length, has_chat_template) =
        llama_cpp_model_header_summary_for_path(None, None);
    assert_eq!(context_length, None);
    assert!(!has_chat_template);
    assert_eq!(quantization_hint, None);
}

#[test]
fn header_summary_takes_the_hint_where_the_header_has_none() {
    let header = GgufHeader { quantization: None, context_length: Some(8), has_chat_template: false };
    let (quantization, length, template) =
        llama_cpp_model_header_summary_for_path(Some(header), Some("Q8_0".to_string()));
    assert_eq!(quantization.as_deref(), Some("Q8_0"));
    assert_eq!(length, Some(8));
    assert!(!template);
    let (quantization, _, _) = llama_cpp_model_header_summary_for_path(None, Some("Q2_K".to_string()));
    assert_eq!(quantization.as_deref(), Some("Q2_K"));
}

#[test]
fn open_model_download_switches_mode_and_seeds_suggestions() {
    let mut app = test_app();
    let mut world = World::new();
    let effects = app.open_model_download();
    world.perform(&mut app, effects);

    assert_eq!(app.mode, AppMode::ModelDownload);
    assert!(app.model_download.input.is_empty());
    assert!(!app.model_download.suggestions.is_empty());
}

#[test]
fn model_download_typing_filters_suggestions() {
    let mut app = test_app();
    let mut world = World::new();
    let effects = app.open_model_download();
    world.perform(&mut app, effects);

    for _ in 0..2 {
        let effects = app.handle_model_download_key(&key(KeyCode::Char('l')));
        world.perform(&mut app, effects);
    }

    assert_eq!(app.model_download.input, "ll");
    assert!(app.model_download.suggestions.iter().all(|s| s.to_lowercase().contains("ll")));
}

#[test]
fn model_download_backspace_removes_last_char() {
    let mut app = test_app();
    app.open_model_download();
    app.handle_model_download_key(&key(KeyCode::Char('a')));
    app.handle_model_download_key(&key(KeyCode::Backspace));
    assert!(app.model_download.input.is_empty());
}

#[test]
fn model_download_tab_adopts_highlighted_suggestion() {
    let mut app = test_app();
    let mut world = World::new();
    let effects = app.open_model_download();
    world.perform(&mut app, effects);
    let first_suggestion = app.model_download.suggestions[0].clone();

    app.handle_model_download_key(&key(KeyCode::Tab));

    assert_eq!(app.model_download.input, first_suggestion);
}

#[test]
fn model_download_esc_closes_dialog_without_running_pull() {
    let mut app = test_app();
    app.open_model_download();

    app.handle_model_download_key(&key(KeyCode::Esc));

    assert_eq!(app.mode, AppMode::Chat);
    assert!(!app.model_download.running);
}

#[test]
fn model_download_enter_starts_pull_then_esc_aborts_it() {
    let mut app = test_app();
    app.open_model_download();
    app.model_download.input = "qwen2.5-coder:7b".to_string();

    let effects = app.handle_model_download_key(&key(KeyCode::Enter));
    assert!(app.model_download.running);
    assert!(matches!(&effects[..], [Effect::PullModel { model }] if model == "qwen2.5-coder:7b"));

    let effects = app.handle_model_download_key(&key(KeyCode::Esc));
    assert!(!app.model_download.running);
    assert_eq!(app.mode, AppMode::Chat);
    assert!(matches!(&effects[..], [Effect::AbortModelTasks]));
}

#[test]
fn handle_ollama_models_listed_updates_installed_list() {
    let mut app = test_app();
    app.handle_event(TuiEvent::OllamaModelsListed(vec!["custom-model:1b".to_string()]));

    assert_eq!(app.model_download.installed, vec!["custom-model:1b".to_string()]);
}

#[test]
fn handle_ollama_pull_progress_updates_status_and_fraction() {
    let mut app = test_app();
    app.handle_event(TuiEvent::OllamaPullProgress {
        status: "pulling abc123".to_string(),
        fraction: Some(float(0.5)),
    });

    assert_eq!(app.model_download.status, Some("pulling abc123".to_string()));
    assert_eq!(app.model_download.fraction, Some(float(0.5)));
}

#[test]
fn handle_ollama_pull_finished_success_posts_chat_message() {
    let mut app = test_app();
    app.mode = AppMode::ModelDownload;
    app.model_download.running = true;

    let effects = app.handle_event(TuiEvent::OllamaPullFinished {
        model: "qwen2.5-coder:7b".to_string(),
        error: None,
    });

    assert!(!app.model_download.running);
    assert_eq!(app.mode, AppMode::Chat);
    assert!(app.messages.iter().any(|m| m.content.contains("Pulled 'qwen2.5-coder:7b'")));
    assert_eq!(app.messages[0].content, "✅ Pulled 'qwen2.5-coder:7b' successfully.");
    assert!(matches!(&effects[..], [Effect::FetchInstalled { for_switch: false }]));
}

#[test]
fn handle_ollama_pull_finished_failure_posts_error_message() {
    let mut app = test_app();

    app.handle_event(TuiEvent::OllamaPullFinished {
        model: "bogus-model".to_string(),
        error: Some("model not found".to_string()),
    });

    assert!(app.messages.iter().any(|m| m.content.contains("Failed to pull 'bogus-model'")
        && m.content.contains("model not found")));
    assert_eq!(app.messages[0].content, "❌ Failed to pull 'bogus-model': model not found");
}

#[test]
fn delete_key_ignored_for_uninstalled_suggestion() {
    let mut app = test_app();
    let mut world = World::new();
    let effects = app.open_model_download();
    world.perform(&mut app, effects);
    assert!(app.model_download.installed.is_empty());

    app.handle_model_download_key(&key(KeyCode::Delete));

    assert!(app.model_download.confirm_delete.is_none());
}

#[test]
fn delete_key_on_installed_model_asks_for_confirmation() {
    let mut app = test_app();
    let mut world = World::new();
    let effects = app.open_model_download();
    world.perform(&mut app, effects);
    world.happen(&mut app, TuiEvent::OllamaModelsListed(vec!["qwen2.5-coder:7b".to_string()]));
    let idx = app
        .model_download
        .suggestions
        .iter()
        .position(|s| s == "qwen2.5-coder:7b")
        .expect("installed model should be in suggestions");
    app.model_download.selected = idx;

    app.handle_model_download_key(&key(KeyCode::Delete));

    assert_eq!(app.model_download.confirm_delete, Some("qwen2.5-coder:7b".to_string()));
}

#[test]
fn confirm_delete_n_cancels_back_to_list() {
    let mut app = test_app();
    app.open_model_download();
    app.model_download.confirm_delete = Some("qwen2.5-coder:7b".to_string());

    app.handle_model_download_key(&key(KeyCode::Char('n')));

    assert!(app.model_download.confirm_delete.is_none());
    assert!(app.model_download.deleting.is_none());
    assert_eq!(app.mode, AppMode::ModelDownload);
}

#[test]
fn confirm_delete_esc_cancels_back_to_list_without_closing_dialog() {
    let mut app = test_app();
    app.open_model_download();
    app.model_download.confirm_delete = Some("qwen2.5-coder:7b".to_string());

    app.handle_model_download_key(&key(KeyCode::Esc));

    assert!(app.model_download.confirm_delete.is_none());
    assert_eq!(app.mode, AppMode::ModelDownload);
}

#[test]
fn confirm_delete_y_starts_delete() {
    let mut app = test_app();
    app.open_model_download();
    app.model_download.confirm_delete = Some("qwen2.5-coder:7b".to_string());

    let effects = app.handle_model_download_key(&key(KeyCode::Char('y')));

    assert!(app.model_download.confirm_delete.is_none());
    assert_eq!(app.model_download.deleting, Some("qwen2.5-coder:7b".to_string()));
    assert!(matches!(&effects[..], [Effect::DeleteModel { model }] if model == "qwen2.5-coder:7b"));
}

#[test]
fn handle_ollama_delete_finished_success_removes_from_installed_and_posts_message() {
    let mut app = test_app();
    app.mode = AppMode::ModelDownload;
    app.model_download.installed = vec!["qwen2.5-coder:7b".to_string()];
    app.model_download.deleting = Some("qwen2.5-coder:7b".to_string());

    app.handle_event(TuiEvent::OllamaDeleteFinished {
        model: "qwen2.5-coder:7b".to_string(),
        error: None,
    });

    assert!(app.model_download.deleting.is_none());
    assert_eq!(app.mode, AppMode::Chat);
    assert!(!app.model_download.installed.contains(&"qwen2.5-coder:7b".to_string()));
    assert!(app.messages.iter().any(|m| m.content.contains("Deleted 'qwen2.5-coder:7b'")));
}

#[test]
fn handle_ollama_delete_finished_failure_keeps_installed_and_posts_error() {
    let mut app = test_app();
    app.model_download.installed = vec!["qwen2.5-coder:7b".to_string()];
    app.model_download.deleting = Some("qwen2.5-coder:7b".to_string());

    app.handle_event(TuiEvent::OllamaDeleteFinished {
        model: "qwen2.5-coder:7b".to_string(),
        error: Some("model is in use".to_string()),
    });

    assert!(app.model_download.deleting.is_none());
    assert!(app.model_download.installed.contains(&"qwen2.5-coder:7b".to_string()));
    assert!(app.messages.iter().any(|m| m.content.contains("Failed to delete 'qwen2.5-coder:7b'")
        && m.content.contains("model is in use")));
}

#[test]
fn up_recalls_previous_messages_without_sending_them() {
    let mut app = test_app();
    app.input.push_input_history("first message");
    app.input.push_input_history("second message");

    app.input.set_input_text("half-typed draft");
    app.handle_chat_key(&key(KeyCode::Up));
    assert_eq!(app.input_text(), "second message");

    app.handle_chat_key(&key(KeyCode::Up));
    assert_eq!(app.input_text(), "first message");

    app.handle_chat_key(&key(KeyCode::Up));
    assert_eq!(app.input_text(), "first message");

    app.handle_chat_key(&key(KeyCode::Down));
    assert_eq!(app.input_text(), "second message");
    app.handle_chat_key(&key(KeyCode::Down));
    assert_eq!(app.input_text(), "half-typed draft");

    assert!(app.messages.is_empty());
}

#[test]
fn key_release_events_are_ignored() {
    let mut app = test_app();
    app.mode = AppMode::Chat;
    app.input.push_input_history("first message");
    app.input.push_input_history("second message");

    app.handle_event(TuiEvent::Key(key(KeyCode::Up)));

    let mut release = key(KeyCode::Up);
    release.pressed = false;
    app.handle_event(TuiEvent::Key(release));

    assert_eq!(app.input_text(), "second message");
}

#[test]
fn recalled_message_can_be_edited_before_resending() {
    let mut app = test_app();
    app.input.push_input_history("list files");

    app.handle_chat_key(&key(KeyCode::Up));
    assert_eq!(app.input_text(), "list files");

    app.handle_chat_key(&key(KeyCode::Char('!')));
    assert_eq!(app.input_text(), "list files!");
}

#[test]
fn up_moves_the_cursor_inside_a_multiline_draft() {
    let mut app = test_app();
    app.input.push_input_history("old message");

    app.input.set_input_text("line one\nline two");
    app.handle_chat_key(&key(KeyCode::Up));
    assert_eq!(app.input_text(), "line one\nline two");
    assert_eq!(app.input.cursor().0, 0);

    app.handle_chat_key(&key(KeyCode::Up));
    assert_eq!(app.input_text(), "old message");
}

#[test]
fn up_is_plain_cursor_movement_when_there_is_no_history() {
    let mut app = test_app();
    app.input.set_input_text("just typing");

    app.handle_chat_key(&key(KeyCode::Up));
    assert_eq!(app.input_text(), "just typing");
    app.handle_chat_key(&key(KeyCode::Down));
    assert_eq!(app.input_text(), "just typing");
}

#[test]
fn consecutive_duplicate_submissions_are_stored_once() {
    let mut app = test_app();
    app.input.push_input_history("same");
    app.input.push_input_history("same");
    app.input.push_input_history("different");

    app.handle_chat_key(&key(KeyCode::Up));
    assert_eq!(app.input_text(), "different");
    app.handle_chat_key(&key(KeyCode::Up));
    assert_eq!(app.input_text(), "same");
    app.handle_chat_key(&key(KeyCode::Up));
    assert_eq!(app.input_text(), "same");
}

#[test]
fn chat_shift_enter_inserts_newline_instead_of_submitting() {
    let mut app = test_app();
    app.mode = AppMode::Chat;
    app.handle_chat_key(&key(KeyCode::Char('h')));
    app.handle_chat_key(&key(KeyCode::Char('i')));
    app.handle_chat_key(&press(KeyCode::Enter, false, false, true));
    app.handle_chat_key(&key(KeyCode::Char('!')));

    assert_eq!(app.input_text(), "hi\n!");
    assert_eq!(app.mode, AppMode::Chat);
}

#[test]
fn chat_alt_enter_inserts_newline_as_non_kitty_fallback() {
    let mut app = test_app();
    app.handle_chat_key(&key(KeyCode::Char('x')));
    app.handle_chat_key(&press(KeyCode::Enter, false, true, false));

    assert_eq!(app.input_text(), "x\n");
}

#[test]
fn chat_left_arrow_moves_cursor_for_mid_buffer_insert() {
    let mut app = test_app();
    type_text(&mut app, "helo");
    app.handle_chat_key(&key(KeyCode::Left));
    app.handle_chat_key(&key(KeyCode::Char('l')));

    assert_eq!(app.input_text(), "hello");
}

#[test]
fn chat_backspace_deletes_at_cursor_not_always_the_last_char() {
    let mut app = test_app();
    type_text(&mut app, "helllo");
    app.handle_chat_key(&key(KeyCode::Left));
    app.handle_chat_key(&key(KeyCode::Left));
    app.handle_chat_key(&key(KeyCode::Backspace));

    assert_eq!(app.input_text(), "hello");
}

#[test]
fn chat_home_and_end_move_cursor_to_line_boundaries() {
    let mut app = test_app();
    type_text(&mut app, "hello");
    assert_eq!(app.input.cursor(), (0, 5));

    app.handle_chat_key(&key(KeyCode::Home));
    assert_eq!(app.input.cursor(), (0, 0));

    app.handle_chat_key(&key(KeyCode::End));
    assert_eq!(app.input.cursor(), (0, 5));
}

#[test]
fn chat_ctrl_left_right_jump_by_word() {
    let mut app = test_app();
    type_text(&mut app, "hello world");
    assert_eq!(app.input.cursor(), (0, 11));

    app.handle_chat_key(&ctrl(KeyCode::Left));
    assert_eq!(app.input.cursor(), (0, 6));
    app.handle_chat_key(&ctrl(KeyCode::Right));
    assert_eq!(app.input.cursor(), (0, 11));
}

#[test]
fn chat_ctrl_backspace_deletes_whole_word() {
    let mut app = test_app();
    type_text(&mut app, "hello world");
    app.handle_chat_key(&ctrl(KeyCode::Backspace));

    assert_eq!(app.input_text(), "hello ");
}

#[test]
fn chat_delete_takes_out_what_is_behind_the_cursor() {
    let mut app = test_app();
    type_text(&mut app, "hello world");
    app.handle_chat_key(&key(KeyCode::Home));
    app.handle_chat_key(&key(KeyCode::Delete));
    assert_eq!(app.input_text(), "ello world");
    app.handle_chat_key(&ctrl(KeyCode::Delete));
    assert_eq!(app.input_text(), " world");
}

#[test]
fn chat_tab_puts_in_spaces_up_to_the_next_stop() {
    let mut app = test_app();
    type_text(&mut app, "ab");
    app.handle_chat_key(&key(KeyCode::Tab));
    assert_eq!(app.input_text(), "ab  ");
    app.handle_chat_key(&key(KeyCode::Tab));
    assert_eq!(app.input_text(), "ab      ");
}

#[test]
fn chat_backspace_at_the_start_of_a_line_joins_it_to_the_one_before() {
    let mut app = test_app();
    app.input.set_input_text("one\ntwo");
    app.handle_chat_key(&key(KeyCode::Home));
    app.handle_chat_key(&key(KeyCode::Backspace));
    assert_eq!(app.input_text(), "onetwo");
    assert_eq!(app.input.cursor(), (0, 3));
    app.handle_chat_key(&key(KeyCode::Home));
    app.handle_chat_key(&key(KeyCode::Backspace));
    assert_eq!(app.input_text(), "onetwo");
}

#[test]
fn paste_preserves_backslashes_and_newlines() {
    let mut app = test_app();
    app.mode = AppMode::Chat;

    let pasted = "D:\\Projets\\test-crustly\\src\\main.rs\nC:\\Users\\jerem\\.crustly";
    app.handle_event(TuiEvent::Paste(pasted.to_string()));

    assert_eq!(app.input_text(), pasted);
}

#[test]
fn altgr_backslash_reaches_the_input() {
    let mut app = test_app();
    app.mode = AppMode::Chat;

    for c in r"D:\Projets\test-crustly".chars() {
        let k = if c == '\\' {
            press(KeyCode::Char(c), true, true, false)
        } else {
            key(KeyCode::Char(c))
        };
        app.handle_chat_key(&k);
    }

    assert_eq!(app.input_text(), r"D:\Projets\test-crustly");
}

#[test]
fn altgr_at_sign_is_typed_not_treated_as_the_file_picker_shortcut() {
    let mut app = test_app();
    app.mode = AppMode::Chat;

    app.handle_chat_key(&press(KeyCode::Char('@'), true, true, false));

    assert_eq!(app.input_text(), "@");
    assert_eq!(app.mode, AppMode::Chat);
}

#[test]
fn plain_at_sign_still_opens_the_file_picker() {
    let mut app = test_app();
    let mut world = World::new();
    app.mode = AppMode::Chat;

    let effects = app.handle_chat_key(&key(KeyCode::Char('@')));
    assert!(matches!(&effects[..], [Effect::ListDirectory { path }] if path == "/work"));
    world.perform(&mut app, effects);

    assert_ne!(app.mode, AppMode::Chat);
    assert_eq!(app.mode, AppMode::FilePicker);
}

#[test]
fn typed_backslashes_reach_the_input() {
    let mut app = test_app();
    app.mode = AppMode::Chat;

    let path = r"D:\Projets\test-crustly\src";
    type_text(&mut app, path);

    assert_eq!(app.input_text(), path);
}

#[test]
fn paste_inserts_at_cursor_not_always_appended_at_the_end() {
    let mut app = test_app();
    app.mode = AppMode::Chat;
    type_text(&mut app, "helo");
    app.handle_chat_key(&key(KeyCode::Left));

    app.handle_event(TuiEvent::Paste("l".to_string()));

    assert_eq!(app.input_text(), "hello");
}

#[test]
fn paste_with_embedded_newline_produces_multiple_lines() {
    let mut app = test_app();
    app.mode = AppMode::Chat;

    app.handle_event(TuiEvent::Paste("line one\nline two".to_string()));

    assert_eq!(app.input_text(), "line one\nline two");
    assert_eq!(app.input.lines(), vec!["line one".to_string(), "line two".to_string()]);
    assert_eq!(app.input.cursor(), (1, 8));
}

#[test]
fn paste_counts_in_the_chat_only() {
    let mut app = test_app();
    app.mode = AppMode::Help;
    app.handle_event(TuiEvent::Paste("lost".to_string()));
    assert_eq!(app.input_text(), "");
}

#[test]
fn ctrl_y_with_no_response_yet_shows_error_without_touching_clipboard() {
    let mut app = test_app();
    app.mode = AppMode::Chat;

    let effects = app.handle_chat_key(&ctrl(KeyCode::Char('y')));

    assert!(effects.is_empty());
    assert_eq!(app.error_message.as_deref(), Some("No response to copy yet."));
}

#[test]
fn ctrl_y_hands_the_last_response_to_the_clipboard() {
    let mut app = test_app();
    let mut world = World::new();
    app.messages.push(message("assistant", "Here you go:\n\n```rust\nfn main() {}\n```"));

    let effects = app.handle_chat_key(&ctrl(KeyCode::Char('y')));
    world.perform(&mut app, effects);
    assert_eq!(world.copied, vec!["Here you go:\n\n```rust\nfn main() {}\n```".to_string()]);
    assert!(app.error_message.is_none());

    app.handle_event(TuiEvent::CopyFailed("no display".to_string()));
    assert_eq!(app.error_message.as_deref(), Some("Couldn't copy to clipboard: no display"));
}

#[test]
fn ctrl_v_paste_from_clipboard_fails_gracefully_without_panicking() {
    let mut app = test_app();
    app.mode = AppMode::Chat;

    let effects = app.handle_chat_key(&ctrl(KeyCode::Char('v')));
    assert!(matches!(&effects[..], [Effect::ReadClipboard]));

    app.handle_event(TuiEvent::ClipboardFailed("no clipboard here".to_string()));
    let err = app.error_message.clone().unwrap();
    assert!(err.contains("clipboard"));
    assert_eq!(err, "Couldn't read clipboard: no clipboard here");
    assert!(app.input.is_empty());

    app.handle_event(TuiEvent::ClipboardText("pasted".to_string()));
    assert_eq!(app.input_text(), "pasted");
}

#[test]
fn auto_mode_defaults_to_interactive() {
    let app = test_app();
    assert_eq!(app.auto_mode(), AutoMode::Interactive);
}

#[test]
fn shift_tab_cycles_auto_mode_through_all_three_levels_and_wraps() {
    let mut app = test_app();

    app.handle_key_event(&key(KeyCode::BackTab));
    assert_eq!(app.auto_mode(), AutoMode::AutoPlan);

    app.handle_key_event(&key(KeyCode::BackTab));
    assert_eq!(app.auto_mode(), AutoMode::FullAuto);

    app.handle_key_event(&key(KeyCode::BackTab));
    assert_eq!(app.auto_mode(), AutoMode::Interactive);
}

#[test]
fn shift_tab_works_from_any_mode_not_just_chat() {
    let mut app = test_app();
    app.mode = AppMode::Plan;

    app.handle_key_event(&key(KeyCode::BackTab));

    assert_eq!(app.auto_mode(), AutoMode::AutoPlan);
    assert_eq!(app.mode, AppMode::Plan);
}

#[test]
fn the_auto_mode_can_be_set_and_goes_on_from_there() {
    let mut app = test_app();
    app.set_auto_mode_state(AutoMode::FullAuto);
    assert_eq!(app.auto_mode(), AutoMode::FullAuto);
    app.handle_key_event(&key(KeyCode::BackTab));
    assert_eq!(app.auto_mode(), AutoMode::Interactive);
}

#[test]
fn slash_skills_command_opens_skills_view() {
    let mut app = test_app();
    let mut world = World::new();
    app.mode = AppMode::Chat;

    let effects = app.try_handle_slash_command("/skills".to_string());
    assert!(matches!(&effects[..], [Effect::ListSkills]));
    world.perform(&mut app, effects);

    assert_eq!(app.mode, AppMode::Skills);
}

#[test]
fn slash_mcp_command_opens_mcp_view() {
    let mut app = test_app();
    app.mode = AppMode::Chat;
    app.set_mcp_status(vec!["test-server".to_string()]);

    app.try_handle_slash_command("/mcp".to_string());

    assert_eq!(app.mode, AppMode::Mcp);
}

#[test]
fn slash_help_command_opens_help_view() {
    let mut app = test_app();
    app.mode = AppMode::Chat;

    app.try_handle_slash_command("/help".to_string());

    assert_eq!(app.mode, AppMode::Help);
}

#[test]
fn unrecognized_slash_word_falls_through_instead_of_being_swallowed() {
    let mut app = test_app();
    let mut world = World::new();
    world.create_new_session(&mut app);
    app.mode = AppMode::Chat;

    let effects = app.try_handle_slash_command("/usr/local/bin/cargo".to_string());
    assert!(matches!(
        &effects[..],
        [Effect::ResolveSkill { name, .. }] if name == "usr/local/bin/cargo"
    ));
    world.perform(&mut app, effects);

    assert_eq!(app.mode, AppMode::Chat);
    assert_eq!(world.sent.len(), 1);
    assert_eq!(world.sent[0].1, "/usr/local/bin/cargo");
}

#[test]
fn slash_review_resolves_to_the_builtin_skill() {
    let mut app = test_app();
    let mut world = World::new();
    world.skills.insert("review".to_string(), "---\nname: review\n---\nLook closely.".to_string());
    world.create_new_session(&mut app);

    let effects = app.try_handle_slash_command("/review".to_string());
    world.perform(&mut app, effects);

    let sent = app.messages.last().expect("the message is shown");
    assert_eq!(sent.role, "user");
    assert!(sent.content.contains("name: review"));
}

#[test]
fn slash_review_with_arguments_appends_them_to_the_skill_prompt() {
    let mut app = test_app();
    let mut world = World::new();
    world.skills.insert("review".to_string(), "name: review".to_string());
    world.create_new_session(&mut app);

    let effects = app.try_handle_slash_command("/review 42".to_string());
    world.perform(&mut app, effects);

    let sent = app.messages.last().unwrap();
    assert!(sent.content.contains("Additional arguments: 42"));
    assert_eq!(sent.content, "name: review\n\nAdditional arguments: 42");
}

#[test]
fn slash_spec_resolves_to_the_builtin_skill_with_arguments() {
    let mut app = test_app();
    let mut world = World::new();
    world.skills.insert("spec".to_string(), "name: spec".to_string());
    world.create_new_session(&mut app);

    let effects = app.try_handle_slash_command("/spec Add CSV export to reports".to_string());
    world.perform(&mut app, effects);

    let sent = app.messages.last().unwrap();
    assert!(sent.content.contains("name: spec"));
    assert!(sent.content.contains("Additional arguments: Add CSV export to reports"));
}

#[test]
fn non_slash_message_is_never_treated_as_a_command() {
    let mut app = test_app();
    let mut world = World::new();
    world.create_new_session(&mut app);
    let effects = app.try_handle_slash_command("just a normal message".to_string());
    assert!(matches!(
        &effects[..],
        [Effect::Send { content, read_only: false, .. }] if content == "just a normal message"
    ));
}

#[test]
fn typing_and_submitting_slash_skills_opens_the_dialog_end_to_end() {
    let mut app = test_app();
    let mut world = World::new();
    app.mode = AppMode::Chat;

    type_text(&mut app, "/skills");
    let effects = app.handle_chat_key(&key(KeyCode::Enter));
    world.perform(&mut app, effects);

    assert_eq!(app.mode, AppMode::Skills);
    assert!(app.input.is_empty());
}

#[test]
fn skills_view_up_down_navigation_clamps_at_bounds() {
    let mut app = test_app();
    app.mode = AppMode::Skills;
    app.skills_list = vec!["a".to_string(), "b".to_string()];

    app.handle_skills_key(&key(KeyCode::Up));
    assert_eq!(app.skills_selected, 0);

    app.handle_skills_key(&key(KeyCode::Down));
    app.handle_skills_key(&key(KeyCode::Down));
    assert_eq!(app.skills_selected, 1);
}

#[test]
fn skills_view_esc_returns_to_chat() {
    let mut app = test_app();
    app.mode = AppMode::Skills;

    app.handle_skills_key(&key(KeyCode::Esc));

    assert_eq!(app.mode, AppMode::Chat);
}

#[test]
fn mcp_view_up_down_navigation_clamps_at_bounds() {
    let mut app = test_app();
    app.mode = AppMode::Mcp;
    app.set_mcp_status(vec!["a".to_string(), "b".to_string()]);

    app.handle_mcp_key(&key(KeyCode::Up));
    assert_eq!(app.mcp_selected, 0);

    app.handle_mcp_key(&key(KeyCode::Down));
    app.handle_mcp_key(&key(KeyCode::Down));
    assert_eq!(app.mcp_selected, 1);
}

#[test]
fn mcp_view_esc_returns_to_chat() {
    let mut app = test_app();
    app.mode = AppMode::Mcp;

    app.handle_mcp_key(&key(KeyCode::Esc));

    assert_eq!(app.mode, AppMode::Chat);
}

#[test]
fn chat_plain_enter_submits_and_clears_buffer() {
    let mut app = test_app();
    app.handle_chat_key(&key(KeyCode::Char('h')));
    app.handle_chat_key(&key(KeyCode::Char('i')));

    app.handle_chat_key(&key(KeyCode::Enter));

    assert!(app.input.is_empty());
}

#[test]
fn chat_plain_enter_on_empty_buffer_does_nothing() {
    let mut app = test_app();

    app.handle_chat_key(&key(KeyCode::Enter));

    assert!(app.input.is_empty());
    assert!(app.messages.is_empty());
}

#[test]
fn ctrl_o_opens_model_info_panel_and_esc_closes_it() {
    let mut app = test_app();
    app.mode = AppMode::Chat;

    app.handle_key_event(&ctrl(KeyCode::Char('o')));
    assert_eq!(app.mode, AppMode::ModelInfo);

    app.handle_key_event(&key(KeyCode::Esc));
    assert_eq!(app.mode, AppMode::Chat);
}

#[test]
fn last_assistant_message_finds_most_recent_assistant_reply() {
    let mut app = test_app();
    assert!(app.last_assistant_message().is_none());

    app.messages.push(message("user", "hi"));
    app.messages.push(message("assistant", "first"));
    app.messages.push(message("assistant", "second"));

    assert_eq!(app.last_assistant_message().unwrap().content, "second");

    app.messages.push(message("system", "note"));
    assert_eq!(app.last_assistant_message().unwrap().content, "second");
}

#[test]
fn chat_ctrl_enter_still_submits_as_legacy_alias() {
    let mut app = test_app();
    app.handle_chat_key(&key(KeyCode::Char('h')));

    app.handle_chat_key(&ctrl(KeyCode::Enter));

    assert!(app.input.is_empty());
}

#[test]
fn ctrl_w_opens_provider_switch_dialog_in_loading_state() {
    let mut app = test_app();
    app.mode = AppMode::Chat;

    let effects = app.handle_key_event(&ctrl(KeyCode::Char('w')));

    assert_eq!(app.mode, AppMode::ProviderSwitch);
    assert!(app.provider_switch.loading);
    assert!(app.provider_switch.models.is_empty());
    assert!(matches!(&effects[..], [Effect::FetchInstalled { for_switch: true }]));
}

#[test]
fn provider_switch_models_listed_clears_loading_state() {
    let mut app = test_app();
    app.provider_switch.loading = true;

    app.handle_event(TuiEvent::ProviderSwitchModelsListed(vec![
        "qwen2.5-coder:7b".to_string(),
        "llama3.2:3b".to_string(),
    ]));

    assert!(!app.provider_switch.loading);
    assert_eq!(app.provider_switch.models.len(), 2);
    assert_eq!(app.provider_switch.selected, 0);
}

#[test]
fn provider_switch_up_down_navigation_clamps_at_bounds() {
    let mut app = test_app();
    app.mode = AppMode::ProviderSwitch;
    app.provider_switch.loading = false;
    app.provider_switch.models = vec!["a".to_string(), "b".to_string(), "c".to_string()];

    app.handle_provider_switch_key(&key(KeyCode::Up));
    assert_eq!(app.provider_switch.selected, 0);

    app.handle_provider_switch_key(&key(KeyCode::Down));
    app.handle_provider_switch_key(&key(KeyCode::Down));
    assert_eq!(app.provider_switch.selected, 2);

    app.handle_provider_switch_key(&key(KeyCode::Down));
    assert_eq!(app.provider_switch.selected, 2);
}

#[test]
fn provider_switch_esc_returns_to_chat() {
    let mut app = test_app();
    app.mode = AppMode::ProviderSwitch;
    app.provider_switch.loading = true;

    app.handle_provider_switch_key(&key(KeyCode::Esc));

    assert_eq!(app.mode, AppMode::Chat);
}

#[test]
fn switch_provider_without_ollama_feature_shows_clear_error() {
    let mut app = test_app();
    app.mode = AppMode::ProviderSwitch;

    app.handle_event(TuiEvent::OllamaSwitchFinished {
        model: "qwen2.5-coder:7b".to_string(),
        outcome: SwitchOutcome::Failed("rebuild with --features ollama".to_string()),
    });

    assert!(app.error_message.as_ref().is_some_and(|e| e.contains("--features ollama")));
    assert_eq!(app.mode, AppMode::ProviderSwitch);
}

#[test]
fn switch_provider_with_ollama_feature_swaps_provider_in_place() {
    let mut app = test_app();
    app.mode = AppMode::ProviderSwitch;
    let original_provider_name = app.provider_name().to_string();

    app.handle_event(TuiEvent::OllamaSwitchFinished {
        model: "qwen2.5-coder:7b".to_string(),
        outcome: SwitchOutcome::Switched(ActiveProvider {
            name: "ollama".to_string(),
            model: "qwen2.5-coder:7b".to_string(),
            context_window: Some(32_768),
        }),
    });

    assert!(app.error_message.is_none());
    assert_eq!(app.mode, AppMode::Chat);
    assert_eq!(app.provider_name(), "ollama");
    assert_ne!(app.provider_name(), original_provider_name);
    assert_eq!(app.provider_model(), "qwen2.5-coder:7b");
    assert_eq!(app.provider_context_window(), Some(32_768));
    assert!(app.messages.iter().any(|m| m.content.contains("Switched to Ollama model")));
}

#[test]
fn a_switch_during_a_response_is_refused() {
    let mut app = test_app();
    app.mode = AppMode::ProviderSwitch;
    app.handle_event(TuiEvent::OllamaSwitchFinished {
        model: "m".to_string(),
        outcome: SwitchOutcome::Busy,
    });
    assert_eq!(
        app.error_message.as_deref(),
        Some("Can't switch provider while a response is in progress - try again once it finishes.")
    );
    assert_eq!(app.mode, AppMode::ProviderSwitch);
    assert!(app.messages.is_empty());
}

#[test]
fn ctrl_g_opens_llama_cpp_models_dialog_in_loading_state() {
    let mut app = test_app();
    app.mode = AppMode::Chat;

    let effects = app.handle_key_event(&ctrl(KeyCode::Char('g')));

    assert_eq!(app.mode, AppMode::LlamaCppModelPicker);
    assert!(app.llama_cpp.loading);
    assert!(app.llama_cpp.models.is_empty());
    assert!(app.llama_cpp.hardware_loading);
    assert!(app.llama_cpp.hardware.is_none());
    assert!(matches!(&effects[..], [Effect::ListLocalModels, Effect::DetectHardware]));
}

#[test]
fn ctrl_g_does_not_re_trigger_hardware_detection_on_a_second_open() {
    let mut app = test_app();
    app.mode = AppMode::Chat;
    app.llama_cpp.hardware = Some("1 byte of memory".to_string());

    let effects = app.handle_key_event(&ctrl(KeyCode::Char('g')));

    assert!(!app.llama_cpp.hardware_loading);
    assert!(matches!(&effects[..], [Effect::ListLocalModels]));
}

#[test]
fn llama_cpp_hardware_detected_clears_loading_state_and_stores_the_result() {
    let mut app = test_app();
    app.llama_cpp.hardware_loading = true;

    app.handle_event(TuiEvent::LlamaCppHardwareDetected("Test GPU".to_string()));

    assert!(!app.llama_cpp.hardware_loading);
    assert_eq!(app.llama_cpp.hardware.as_deref(), Some("Test GPU"));
}

#[test]
fn llama_cpp_models_listed_clears_loading_state() {
    let mut app = test_app();
    app.llama_cpp.loading = true;

    app.handle_event(TuiEvent::LlamaCppModelsListed(vec![
        model_file("/models/a.gguf"),
        model_file("/models/b.gguf"),
    ]));

    assert!(!app.llama_cpp.loading);
    assert_eq!(app.llama_cpp.models.len(), 2);
    assert_eq!(app.llama_cpp.selected, 0);
}

#[test]
fn llama_cpp_up_down_navigation_clamps_at_bounds() {
    let mut app = test_app();
    app.mode = AppMode::LlamaCppModelPicker;
    app.llama_cpp.loading = false;
    app.llama_cpp.models = vec![model_file("/models/a.gguf"), model_file("/models/b.gguf")];

    app.handle_llama_cpp_models_key(&key(KeyCode::Up));
    assert_eq!(app.llama_cpp.selected, 0);

    app.handle_llama_cpp_models_key(&key(KeyCode::Down));
    app.handle_llama_cpp_models_key(&key(KeyCode::Down));
    assert_eq!(app.llama_cpp.selected, 1);
}

#[test]
fn llama_cpp_esc_returns_to_chat() {
    let mut app = test_app();
    app.mode = AppMode::LlamaCppModelPicker;
    app.llama_cpp.loading = true;

    app.handle_llama_cpp_models_key(&key(KeyCode::Esc));

    assert_eq!(app.mode, AppMode::Chat);
}

#[test]
fn llama_cpp_typing_fills_the_download_input() {
    let mut app = test_app();
    app.mode = AppMode::LlamaCppModelPicker;
    app.llama_cpp.loading = false;

    app.handle_llama_cpp_models_key(&key(KeyCode::Char('h')));
    app.handle_llama_cpp_models_key(&key(KeyCode::Char('f')));

    assert_eq!(app.llama_cpp.input, "hf");
}

#[test]
fn llama_cpp_delete_key_asks_for_confirmation_before_deleting() {
    let mut app = test_app();
    app.mode = AppMode::LlamaCppModelPicker;
    app.llama_cpp.models = vec![model_file("/models/a.gguf")];

    app.handle_llama_cpp_models_key(&key(KeyCode::Delete));

    assert_eq!(app.llama_cpp.confirm_delete, Some("/models/a.gguf".to_string()));
    assert_eq!(app.llama_cpp.models.len(), 1);
}

#[test]
fn llama_cpp_delete_finished_removes_model_from_list() {
    let mut app = test_app();
    app.llama_cpp.models = vec![model_file("/models/a.gguf")];
    app.llama_cpp.deleting = Some("/models/a.gguf".to_string());

    app.handle_event(TuiEvent::LlamaCppDeleteFinished {
        path: "/models/a.gguf".to_string(),
        name: "a.gguf".to_string(),
        error: None,
    });

    assert!(app.llama_cpp.deleting.is_none());
    assert!(app.llama_cpp.models.is_empty());
    assert_eq!(app.mode, AppMode::Chat);
    assert!(app.messages.iter().any(|m| m.content.contains("Deleted")));
}

#[test]
fn llama_cpp_switch_finished_swaps_provider_in_place() {
    let mut app = test_app();
    app.mode = AppMode::LlamaCppModelPicker;
    app.llama_cpp.switching = Some("/models/a.gguf".to_string());

    app.handle_event(TuiEvent::LlamaCppSwitchFinished {
        path: "/models/a.gguf".to_string(),
        name: "a.gguf".to_string(),
        outcome: SwitchOutcome::Switched(ActiveProvider {
            name: "dummy".to_string(),
            model: "dummy-model".to_string(),
            context_window: None,
        }),
    });

    assert!(app.llama_cpp.switching.is_none());
    assert_eq!(app.mode, AppMode::Chat);
    assert_eq!(app.provider_name(), "dummy");
    assert!(app.messages.iter().any(|m| m.content.contains("Switched to")));
    assert_eq!(app.llama_cpp_active_model_path.as_deref(), Some("/models/a.gguf"));
}

#[test]
fn llama_cpp_switch_finished_with_error_reports_failure_without_swapping() {
    let mut app = test_app();
    app.mode = AppMode::LlamaCppModelPicker;
    app.llama_cpp.switching = Some("/models/a.gguf".to_string());
    let original_provider_name = app.provider_name().to_string();

    app.handle_event(TuiEvent::LlamaCppSwitchFinished {
        path: "/models/a.gguf".to_string(),
        name: "a.gguf".to_string(),
        outcome: SwitchOutcome::Failed("model file not found".to_string()),
    });

    assert!(app.llama_cpp.switching.is_none());
    assert_eq!(app.provider_name(), original_provider_name);
    assert!(app.messages.iter().any(|m| m.content.contains("Failed to load")));
}

#[test]
fn llama_cpp_switch_is_a_noop_while_a_delete_is_already_running() {
    let mut app = test_app();
    app.mode = AppMode::LlamaCppModelPicker;
    app.llama_cpp.deleting = Some("/models/a.gguf".to_string());
    app.llama_cpp.models = vec![model_file("/models/b.gguf")];

    app.handle_llama_cpp_models_key(&key(KeyCode::Enter));

    assert!(app.llama_cpp.switching.is_none());
}

#[test]
fn stale_session_response_chunk_is_dropped_after_switching_sessions() {
    let mut app = test_app();
    let mut world = World::new();
    let session_a_id = world.create_new_session(&mut app);
    let session_b_id = world.create_new_session(&mut app);
    assert_ne!(session_a_id, session_b_id);

    app.handle_event(TuiEvent::ResponseChunk(
        session_a_id,
        "stale chunk from session A".to_string(),
    ));
    assert!(app.streaming_response.is_none());

    app.handle_event(TuiEvent::ResponseChunk(
        session_b_id,
        "live chunk from session B".to_string(),
    ));
    assert_eq!(app.streaming_response.as_deref(), Some("live chunk from session B"));
}

#[test]
fn plan_task_error_marks_task_failed_and_stops_auto_execution() {
    let mut app = test_app();
    let mut world = World::new();
    let session_id = world.create_new_session(&mut app);
    app.current_plan =
        Some(plan(PlanStatus::InProgress, vec![task(1, 1, "Do the thing", TaskStatus::InProgress)]));
    app.executing_plan = true;

    world.happen(&mut app, TuiEvent::Error(session_id, "provider timed out".to_string()));

    assert!(!app.executing_plan);
    let task = &app.current_plan.as_ref().unwrap().tasks[0];
    assert!(matches!(task.status, TaskStatus::Failed));
    assert_eq!(task.notes.as_deref(), Some("Task failed: provider timed out"));
    assert!(app.error_message.as_ref().is_some_and(|m| m.contains("provider timed out")));
    assert_eq!(world.saved_plans, 1);
}

#[test]
fn stale_session_response_complete_is_dropped_after_switching_sessions() {
    let mut app = test_app();
    let mut world = World::new();
    let session_a_id = world.create_new_session(&mut app);
    let session_b_id = world.create_new_session(&mut app);
    let messages_before = app.messages.len();
    app.is_processing = true;
    app.processing_session = Some(session_b_id);

    app.handle_event(TuiEvent::ResponseComplete(
        session_a_id,
        response("reply that belongs to session A"),
    ));

    assert_eq!(app.messages.len(), messages_before);
    assert!(app.is_processing);
}

#[test]
fn switching_sessions_clears_a_stuck_processing_state_from_the_previous_session() {
    let mut app = test_app();
    let mut world = World::new();
    let session_a_id = world.create_new_session(&mut app);
    app.is_processing = true;
    app.processing_session = Some(session_a_id);
    app.streaming_response = Some("partial reply for A".to_string());

    let session_b_id = world.create_new_session(&mut app);
    assert_ne!(session_a_id, session_b_id);

    assert!(!app.is_processing);
    assert!(app.streaming_response.is_none());
}

fn stored(content: &str) -> StoredMessage {
    StoredMessage {
        id: 1,
        role: "assistant".to_string(),
        content: content.to_string(),
        created_at: 0,
        token_count: None,
        cost: None,
        provider_name: None,
        perf_metrics: None,
    }
}

#[test]
fn clear_session_is_refused_while_the_current_session_is_processing() {
    let mut app = test_app();
    let mut world = World::new();
    let session_id = world.create_new_session(&mut app);
    world.messages.insert(session_id, vec![stored("in flight")]);
    app.is_processing = true;
    app.processing_session = Some(session_id);

    let effects = app.clear_session();
    world.perform(&mut app, effects);

    assert_eq!(world.messages[&session_id].len(), 1);
    assert!(app.error_message.as_ref().is_some_and(|m| m.contains("Wait for the response")));
}

#[test]
fn clear_session_proceeds_when_only_another_session_is_processing() {
    let mut app = test_app();
    let mut world = World::new();
    let other_session_id = world.create_new_session(&mut app);
    let current_session_id = world.create_new_session(&mut app);
    assert_ne!(other_session_id, current_session_id);
    world.messages.insert(current_session_id, vec![stored("on screen")]);
    app.is_processing = true;
    app.processing_session = Some(other_session_id);

    let effects = app.clear_session();
    world.perform(&mut app, effects);

    assert!(!world.messages.contains_key(&current_session_id));
    assert!(app.messages.is_empty());
}

#[test]
fn switching_back_to_a_session_with_a_still_in_flight_request_restores_processing_state() {
    let mut app = test_app();
    let mut world = World::new();
    let session_a_id = world.create_new_session(&mut app);
    app.is_processing = true;
    app.processing_session = Some(session_a_id);
    app.streaming_response = Some("partial reply for A".to_string());

    world.create_new_session(&mut app);
    assert!(!app.is_processing);

    world.happen(&mut app, TuiEvent::SelectSession(session_a_id));

    assert!(app.is_processing);
}

#[test]
fn send_message_is_a_no_op_while_a_request_for_the_same_session_is_in_flight() {
    let mut app = test_app();
    let mut world = World::new();
    let session_id = world.create_new_session(&mut app);
    app.is_processing = true;
    app.processing_session = Some(session_id);
    let messages_before = app.messages.len();

    let effects = app.send_message("second submission while streaming".to_string());

    assert_eq!(app.messages.len(), messages_before);
    assert!(effects.is_empty());
}

#[test]
fn send_message_still_works_for_a_different_session_than_the_one_processing() {
    let mut app = test_app();
    let mut world = World::new();
    let session_a_id = world.create_new_session(&mut app);
    app.is_processing = true;
    app.processing_session = Some(session_a_id);

    world.create_new_session(&mut app);
    let messages_before = app.messages.len();

    let effects = app.send_message("hello from session B".to_string());

    assert_eq!(app.messages.len(), messages_before + 1);
    assert_eq!(effects.len(), 1);
}

#[test]
fn a_new_session_is_stamped_and_stored() {
    let mut app = test_app();
    let mut world = World::new();
    let effects = app.initialize(None);
    world.perform(&mut app, effects);
    let current = app.current_session.clone().unwrap();
    assert_eq!(current.title.as_deref(), Some("New Chat"));
    assert_eq!(current.model.as_deref(), Some("dummy-model"));
    assert_eq!(current.provider.as_deref(), Some("dummy"));
    assert_eq!(world.sessions[&current.id].model.as_deref(), Some("dummy-model"));
    assert_eq!(app.sessions.len(), 1);
}

#[test]
fn the_session_that_was_used_last_is_read_at_the_start() {
    let mut app = test_app();
    let mut world = World::new();
    world.sessions.insert(
        7,
        Session {
            id: 7,
            title: None,
            model: Some("old-model".to_string()),
            provider: Some("old".to_string()),
        },
    );
    world.messages.insert(7, vec![stored("hello again")]);
    let effects = app.initialize(Some(7));
    world.perform(&mut app, effects);
    let current = app.current_session.clone().unwrap();
    assert_eq!(current.id, 7);
    assert_eq!(current.model.as_deref(), Some("old-model"));
    assert_eq!(app.messages.len(), 1);
    assert_eq!(app.messages[0].content, "hello again");
}

#[test]
fn a_session_without_a_model_is_stamped_when_it_is_read() {
    let mut app = test_app();
    let mut world = World::new();
    world.sessions.insert(8, session(8));
    world.happen(&mut app, TuiEvent::SelectSession(8));
    assert_eq!(world.sessions[&8].model.as_deref(), Some("dummy-model"));
    assert_eq!(world.sessions[&8].provider.as_deref(), Some("dummy"));
}

#[test]
fn the_list_of_sessions_opens_the_selected_one() {
    let mut app = test_app();
    let mut world = World::new();
    let first = world.create_new_session(&mut app);
    let second = world.create_new_session(&mut app);
    let effects = app.handle_key_event(&ctrl(KeyCode::Char('l')));
    world.perform(&mut app, effects);
    assert_eq!(app.mode, AppMode::Sessions);
    assert_eq!(app.sessions.len(), 2);
    app.handle_sessions_key(&key(KeyCode::Down));
    app.handle_sessions_key(&key(KeyCode::Down));
    assert_eq!(app.selected_session_index, 1);
    app.handle_sessions_key(&key(KeyCode::Up));
    assert_eq!(app.selected_session_index, 0);
    let effects = app.handle_sessions_key(&key(KeyCode::Enter));
    world.perform(&mut app, effects);
    assert_eq!(app.current_session.as_ref().unwrap().id, first);
    assert_ne!(app.current_session.as_ref().unwrap().id, second);
    assert_eq!(app.mode, AppMode::Chat);
}

#[test]
fn an_answer_is_shown_with_its_tokens() {
    let mut app = test_app();
    let mut world = World::new();
    let id = world.create_new_session(&mut app);
    app.send_message("question".to_string());
    assert!(app.is_processing);
    app.handle_event(TuiEvent::ResponseChunk(id, "ans".to_string()));
    app.handle_event(TuiEvent::ResponseChunk(id, "wer".to_string()));
    assert_eq!(app.streaming_response.as_deref(), Some("answer"));
    let mut r = response("answer");
    r.input_tokens = 30;
    r.output_tokens = 12;
    r.tokens_per_second = Some(float(4.5));
    world.happen(&mut app, TuiEvent::ResponseComplete(id, r));
    assert!(!app.is_processing);
    assert!(app.streaming_response.is_none());
    assert_eq!(app.messages.len(), 2);
    let shown = &app.messages[1];
    assert_eq!(shown.id, 77);
    assert_eq!(shown.role, "assistant");
    assert_eq!(shown.content, "answer");
    assert_eq!(shown.token_count, Some(42));
    assert_eq!(shown.provider_name.as_deref(), Some("test-provider"));
    assert_eq!(shown.tokens_per_second, Some(float(4.5)));
    assert_eq!(app.total_tokens(), 42);
}

#[test]
fn a_plan_is_carried_out_task_by_task() {
    let mut app = test_app();
    let mut world = World::new();
    let id = world.create_new_session(&mut app);
    app.current_plan = Some(plan(
        PlanStatus::PendingApproval,
        vec![
            task(1, 1, "First", TaskStatus::Pending),
            task(2, 2, "Second", TaskStatus::Pending),
        ],
    ));
    app.mode = AppMode::Plan;
    let effects = app.handle_plan_key(&ctrl(KeyCode::Char('a')));
    assert!(matches!(&effects[..], [Effect::ExportPlan { file_name }] if file_name == "PLAN.md"));
    world.perform(&mut app, effects);
    assert!(app.executing_plan);
    assert_eq!(app.mode, AppMode::Chat);
    assert_eq!(world.sent.len(), 1);
    assert_eq!(
        world.sent[0].1,
        format!(
            "📋 Executing Plan Task #1/2\n\n**First**\n\nDescription 1\n\nPlease complete {} task.",
            "this"
        )
    );
    assert_eq!(app.current_plan.as_ref().unwrap().tasks[0].status, TaskStatus::InProgress);

    world.happen(&mut app, TuiEvent::ResponseComplete(id, response("All done.")));
    assert_eq!(app.current_plan.as_ref().unwrap().tasks[0].status, TaskStatus::Completed);
    assert!(app.current_plan.as_ref().unwrap().tasks[0].completed_at.is_some());
    assert_eq!(world.sent.len(), 2);

    world.happen(&mut app, TuiEvent::ResponseComplete(id, response("Done as well.")));
    assert!(!app.executing_plan);
    assert_eq!(app.current_plan.as_ref().unwrap().status, PlanStatus::Completed);
    assert_eq!(
        app.messages.last().unwrap().content,
        "✅ Plan 'Test plan' completed successfully!\nAll 2 tasks have been executed."
    );
}

#[test]
fn an_answer_that_speaks_of_an_error_stops_the_plan() {
    let mut app = test_app();
    let mut world = World::new();
    let id = world.create_new_session(&mut app);
    app.current_plan = Some(plan(
        PlanStatus::InProgress,
        vec![
            task(1, 1, "First", TaskStatus::InProgress),
            task(2, 2, "Second", TaskStatus::Pending),
        ],
    ));
    app.executing_plan = true;
    world.happen(&mut app, TuiEvent::ResponseComplete(id, response("BUILD FAILED, sorry")));
    assert!(!app.executing_plan);
    let current = app.current_plan.as_ref().unwrap();
    assert_eq!(current.tasks[0].status, TaskStatus::Failed);
    assert_eq!(
        current.tasks[0].notes.as_deref(),
        Some("Task failed during execution. Error detected in response.")
    );
    assert_eq!(current.tasks[1].status, TaskStatus::Pending);
    assert!(world.sent.is_empty());
    assert_eq!(
        app.messages.last().unwrap().content,
        "⚠️ Plan execution stopped due to task failure. Review the error above and decide how to proceed."
    );
}

#[test]
fn tasks_in_a_circle_are_not_carried_out() {
    let mut app = test_app();
    let mut world = World::new();
    world.create_new_session(&mut app);
    app.current_plan = Some(plan(PlanStatus::InProgress, vec![task(1, 1, "A", TaskStatus::Pending)]));
    app.executing_plan = true;
    app.handle_event(TuiEvent::TasksOrdered(None));
    assert!(!app.executing_plan);
    assert!(app.error_message.as_ref().unwrap().starts_with("❌ Cannot Execute Plan\n\nCircular"));
}

#[test]
fn a_finished_plan_file_is_looked_for_under_the_sessions_identifier() {
    let mut app = test_app();
    app.current_session = Some(session(0x0123_4567_89ab_cdef_0011_2233_4455_6677));
    let effects = app.handle_event(TuiEvent::PlanInDatabase { to_view: false, plan: None });
    assert!(matches!(
        &effects[..],
        [Effect::ReadPlanFile { file_name, to_view: false }]
            if file_name == ".crustly_plan_01234567-89ab-cdef-0011-223344556677.json"
    ));
}

#[test]
fn a_plan_that_waits_is_announced_once() {
    let mut app = test_app();
    let mut world = World::new();
    world.create_new_session(&mut app);
    let ready = || {
        Some(plan(PlanStatus::PendingApproval, vec![task(1, 1, "A", TaskStatus::Pending)]))
    };
    app.handle_event(TuiEvent::PlanInDatabase { to_view: false, plan: ready() });
    assert_eq!(app.messages.len(), 1);
    assert_eq!(
        app.messages[0].content,
        "✅ Plan 'Test plan' is ready!\n\n1 tasks • Press Ctrl+P to review\n\nActions:\n• Ctrl+A: Approve and execute\n• Ctrl+R: Reject\n• Ctrl+I: Request changes\n• Ctrl+P: View plan"
    );
    app.handle_event(TuiEvent::PlanInDatabase { to_view: false, plan: ready() });
    assert_eq!(app.messages.len(), 1);
    let effects = app.handle_event(TuiEvent::PlanInFile { to_view: false, plan: ready() });
    assert!(matches!(&effects[..], [Effect::MigratePlan { .. }]));
    assert_eq!(app.messages.len(), 1);
}

#[test]
fn a_draft_is_shown_but_not_announced() {
    let mut app = test_app();
    let mut world = World::new();
    world.create_new_session(&mut app);
    let effects = app.handle_event(TuiEvent::PlanInFile {
        to_view: false,
        plan: Some(plan(PlanStatus::Draft, Vec::new())),
    });
    assert!(effects.is_empty());
    assert!(app.current_plan.is_none());
    app.handle_event(TuiEvent::PlanInFile {
        to_view: true,
        plan: Some(plan(PlanStatus::Draft, Vec::new())),
    });
    assert_eq!(app.mode, AppMode::Plan);
    let effects = app.handle_key_event(&ctrl(KeyCode::Char('p')));
    assert!(effects.is_empty());
    assert_eq!(app.mode, AppMode::Chat);
}

#[test]
fn without_a_plan_there_is_nothing_to_show() {
    let mut app = test_app();
    let mut world = World::new();
    world.create_new_session(&mut app);
    let effects = app.handle_key_event(&ctrl(KeyCode::Char('p')));
    world.perform(&mut app, effects);
    assert_eq!(app.mode, AppMode::Chat);
    assert_eq!(app.error_message.as_deref(), Some("No plan available. Create a plan first."));
}

#[test]
fn a_rejected_plan_is_stored_and_gone() {
    let mut app = test_app();
    let mut world = World::new();
    world.create_new_session(&mut app);
    app.current_plan = Some(plan(PlanStatus::PendingApproval, Vec::new()));
    app.mode = AppMode::Plan;
    let effects = app.handle_plan_key(&ctrl(KeyCode::Char('r')));
    assert!(matches!(
        &effects[..],
        [Effect::SavePlan { plan, .. }] if plan.status == PlanStatus::Rejected
    ));
    assert!(app.current_plan.is_none());
    assert_eq!(app.mode, AppMode::Chat);
}

#[test]
fn changes_to_a_plan_are_asked_for_in_the_input() {
    let mut app = test_app();
    app.current_plan = Some(plan(
        PlanStatus::PendingApproval,
        vec![task(1, 1, "A", TaskStatus::Pending), task(2, 2, "B", TaskStatus::Pending)],
    ));
    app.mode = AppMode::Plan;
    app.handle_plan_key(&ctrl(KeyCode::Char('i')));
    assert_eq!(
        app.input_text(),
        "Please revise this plan:\n\nCurrent plan 'Test plan' has 2 tasks:\n  1. A (edit)\n  2. B (edit)\n\nRequested changes: "
    );
    assert_eq!(app.mode, AppMode::Chat);
    assert!(app.current_plan.is_some());
}

#[test]
fn a_plan_is_scrolled_within_its_tasks() {
    let mut app = test_app();
    let tasks = (1..=15).map(|i| task(i as u128, i, "T", TaskStatus::Pending)).collect();
    app.current_plan = Some(plan(PlanStatus::PendingApproval, tasks));
    app.mode = AppMode::Plan;
    app.handle_plan_key(&key(KeyCode::Up));
    assert_eq!(app.plan_scroll_offset, 0);
    app.handle_plan_key(&key(KeyCode::PageDown));
    assert_eq!(app.plan_scroll_offset, 10);
    app.handle_plan_key(&key(KeyCode::PageDown));
    assert_eq!(app.plan_scroll_offset, 14);
    app.handle_plan_key(&key(KeyCode::Down));
    assert_eq!(app.plan_scroll_offset, 14);
    app.handle_plan_key(&key(KeyCode::PageUp));
    assert_eq!(app.plan_scroll_offset, 4);
    app.handle_plan_key(&key(KeyCode::PageUp));
    assert_eq!(app.plan_scroll_offset, 0);
}

#[test]
fn a_plan_is_written_out() {
    let mut first = task(1, 1, "First", TaskStatus::Pending);
    first.description = "Do it.".to_string();
    let mut second = task(2, 2, "Second", TaskStatus::Pending);
    second.dependencies = vec![1, 99];
    second.description = "Do more.".to_string();
    let mut p = plan(PlanStatus::Approved, vec![first, second]);
    p.context = "Some context".to_string();
    p.risks = vec!["It may break".to_string()];
    assert_eq!(
        p.to_markdown("2025-01-02 03:04:05", "2025-01-03 03:04:05"),
        "# Test plan\n\nA plan\n\n## Context\n\nSome context\n\n## Risks & Considerations\n\n- It may break\n\n## Tasks\n\n### Task 1: First\n\n**Type:** Edit | **Complexity:** 3★\n\n**Implementation Steps:**\n\nDo it.\n\n---\n\n### Task 2: Second\n\n**Type:** Edit | **Complexity:** 3★\n\n**Dependencies:** Task(s) 1\n\n**Implementation Steps:**\n\nDo more.\n\n---\n\n\n*Plan created: 2025-01-02 03:04:05*\n*Last updated: 2025-01-03 03:04:05*\n"
    );
}

#[test]
fn an_approval_is_given_denied_or_times_out() {
    let mut app = test_app();
    app.handle_event(TuiEvent::ToolApprovalRequested(5));
    assert_eq!(app.mode, AppMode::ToolApproval);
    app.handle_approval_key(&key(KeyCode::Char('v')));
    assert!(app.show_approval_details);
    let effects = app.handle_approval_key(&key(KeyCode::Char('a')));
    assert!(matches!(&effects[..], [Effect::Respond { request: 5, approved: true, reason: None }]));
    app.handle_event(TuiEvent::ToolApprovalResponse);
    assert_eq!(app.mode, AppMode::Chat);
    assert!(app.pending_approval.is_none());
    assert!(!app.show_approval_details);

    app.handle_event(TuiEvent::ToolApprovalRequested(6));
    let effects = app.handle_approval_key(&key(KeyCode::Char('d')));
    assert!(matches!(
        &effects[..],
        [Effect::Respond { request: 6, approved: false, reason: Some(r) }] if r == "User denied permission"
    ));

    assert!(app.handle_event(TuiEvent::Tick { timed_out: false }).is_empty());
    let effects = app.handle_event(TuiEvent::Tick { timed_out: true });
    assert!(matches!(
        &effects[..],
        [Effect::Respond { request: 6, approved: false, reason: Some(r) }]
            if r == "Approval request timed out after 5 minutes"
    ));
    assert_eq!(app.error_message.as_deref(), Some("⏱️  Approval request timed out"));
    assert!(app.handle_event(TuiEvent::Tick { timed_out: true }).is_empty());
    assert_eq!(app.animation_frame, 3);
}

#[test]
fn the_chat_scrolls_by_ten() {
    let mut app = test_app();
    app.handle_chat_key(&key(KeyCode::PageUp));
    app.handle_chat_key(&key(KeyCode::PageUp));
    assert_eq!(app.scroll_offset, 20);
    app.handle_chat_key(&key(KeyCode::PageDown));
    assert_eq!(app.scroll_offset, 10);
    app.handle_chat_key(&key(KeyCode::PageDown));
    app.handle_chat_key(&key(KeyCode::PageDown));
    assert_eq!(app.scroll_offset, 0);
    app.scroll_offset = usize::MAX - 3;
    app.handle_chat_key(&key(KeyCode::PageUp));
    assert_eq!(app.scroll_offset, usize::MAX);
}

#[test]
fn cancelling_empties_the_input_and_takes_the_error_away() {
    let mut app = test_app();
    type_text(&mut app, "some words");
    app.error_message = Some("oops".to_string());
    app.handle_chat_key(&key(KeyCode::Esc));
    assert!(app.input.is_empty());
    assert!(app.error_message.is_none());
}

#[test]
fn t_in_an_empty_input_shows_the_last_reasoning() {
    let mut app = test_app();
    let mut thought = message("assistant", "answer");
    thought.thinking_text = Some("hm".to_string());
    app.messages.push(thought);
    app.messages.push(message("assistant", "plain"));
    app.handle_chat_key(&key(KeyCode::Char('t')));
    assert!(app.messages[0].thinking_expanded);
    assert_eq!(app.messages[0].id, 1);
    app.handle_chat_key(&key(KeyCode::Char('t')));
    assert!(!app.messages[0].thinking_expanded);
    assert_eq!(app.input_text(), "");
    type_text(&mut app, "at");
    assert_eq!(app.input_text(), "at");
}

fn entry(path: &str, is_dir: bool) -> FileEntry {
    let name = match path.rsplit('/').next() {
        Some("..") | None => None,
        Some(n) => Some(n.to_string()),
    };
    FileEntry { path: path.to_string(), name, is_dir }
}

#[test]
fn files_are_listed_directories_first() {
    let mut app = test_app();
    app.handle_event(TuiEvent::DirectoryListed {
        up: Some(entry("/work/..", true)),
        entries: vec![
            entry("/work/b.rs", false),
            entry("/work/src", true),
            entry("/work/a.rs", false),
            entry("/work/app", true),
        ],
    });
    let shown: Vec<&str> = app.file_picker.files.iter().map(|f| f.path.as_str()).collect();
    assert_eq!(shown, ["/work/..", "/work/app", "/work/src", "/work/a.rs", "/work/b.rs"]);
    assert_eq!(app.mode, AppMode::FilePicker);
}

#[test]
fn a_directory_is_gone_into_and_a_file_is_put_into_the_input() {
    let mut app = test_app();
    app.handle_event(TuiEvent::DirectoryListed {
        up: None,
        entries: vec![entry("/work/src", true), entry("/work/a.rs", false)],
    });
    let effects = app.handle_file_picker_key(&key(KeyCode::Enter));
    assert!(matches!(&effects[..], [Effect::OpenEntry { path }] if path == "/work/src"));
    let effects = app.handle_event(TuiEvent::EntryOpened {
        path: "/work/src".to_string(),
        is_dir: true,
        is_up: false,
        parent: None,
    });
    assert!(matches!(&effects[..], [Effect::ListDirectory { path }] if path == "/work/src"));
    let effects = app.handle_event(TuiEvent::EntryOpened {
        path: "/work/src/..".to_string(),
        is_dir: true,
        is_up: true,
        parent: Some("/work".to_string()),
    });
    assert!(matches!(&effects[..], [Effect::ListDirectory { path }] if path == "/work"));
    app.handle_event(TuiEvent::EntryOpened {
        path: "/work/a.rs".to_string(),
        is_dir: false,
        is_up: false,
        parent: None,
    });
    assert_eq!(app.input_text(), "/work/a.rs");
    assert_eq!(app.mode, AppMode::Chat);
}

#[test]
fn the_file_picker_scrolls_with_the_selection() {
    let mut app = test_app();
    let entries = (0..30).map(|i| entry(&format!("/work/{i:02}"), false)).collect();
    app.handle_event(TuiEvent::DirectoryListed { up: None, entries });
    for _ in 0..25 {
        app.handle_file_picker_key(&key(KeyCode::Down));
    }
    assert_eq!(app.file_picker.selected, 25);
    assert_eq!(app.file_picker.scroll_offset, 6);
    for _ in 0..25 {
        app.handle_file_picker_key(&key(KeyCode::Up));
    }
    assert_eq!(app.file_picker.selected, 0);
    assert_eq!(app.file_picker.scroll_offset, 0);
}

#[test]
fn the_settings_are_kept() {
    let mut app = test_app();
    assert_eq!(app.settings.ollama_host, "http://localhost:11434");
    app.set_ollama_host("http://other:1".to_string());
    app.set_llama_cpp_models_dir("/models".to_string());
    app.set_llama_cpp_discovery_sources(vec!["/more".to_string()], Some("/ollama".to_string()));
    app.set_kitty_keyboard_protocol_active(true);
    assert_eq!(app.settings.ollama_host, "http://other:1");
    assert_eq!(app.settings.llama_cpp_models_dir, "/models");
    assert_eq!(app.settings.llama_cpp_extra_model_paths, vec!["/more".to_string()]);
    assert_eq!(app.settings.llama_cpp_ollama_models_dir.as_deref(), Some("/ollama"));
    assert!(app.settings.kitty_keyboard_protocol_active);
}

fn local_config(model_path: &str) -> LlamaCppProviderConfig {
    LlamaCppProviderConfig {
        model_path: model_path.to_string(),
        display_name: None,
        n_ctx: 4096,
        n_gpu_layers: 7,
        n_threads: None,
        chat_template: None,
        temperature: None,
        top_p: None,
        top_k: None,
        repeat_penalty: None,
        seed: None,
        idle_unload_secs: None,
    }
}

#[test]
fn details_of_a_model_file_are_only_shown_where_it_is_in_use() {
    let header = || {
        Some(GgufHeader {
            quantization: None,
            context_length: Some(8192),
            has_chat_template: true,
        })
    };
    let hint = || Some("Q4_K_M".to_string());

    let mut app = test_app();
    app.set_llama_cpp_config(local_config("/models/a.gguf"));
    assert_eq!(app.llama_cpp_details_path(), None);
    assert!(app.llama_cpp_model_details(header(), hint()).is_none());

    app.set_agent_service(ActiveProvider {
        name: "llama-cpp".to_string(),
        model: "a".to_string(),
        context_window: Some(4096),
    });
    assert_eq!(app.llama_cpp_details_path(), Some("/models/a.gguf".to_string()));
    let details = app.llama_cpp_model_details(header(), hint()).unwrap();
    assert_eq!(details.n_gpu_layers, 7);
    assert_eq!(details.quantization_hint, hint());
    assert_eq!(details.context_length, Some(8192));
    assert!(details.has_chat_template);

    app.set_llama_cpp_config(local_config("/models/b.gguf"));
    assert_eq!(app.llama_cpp_details_path(), Some("/models/b.gguf".to_string()));
    app.set_llama_cpp_discovery_sources(vec!["/more".to_string()], None);
    assert_eq!(app.settings.llama_cpp_extra_model_paths, vec!["/more".to_string()]);
}

#[test]
fn another_sessions_partial_reply_is_never_shown() {
    let mut app = test_app();
    let mut world = World::new();
    let a = world.create_new_session(&mut app);
    let b = world.create_new_session(&mut app);
    world.happen(&mut app, TuiEvent::MessageSubmitted("for b".to_string()));
    world.happen(&mut app, TuiEvent::SelectSession(a));
    world.happen(&mut app, TuiEvent::MessageSubmitted("for a".to_string()));
    assert_eq!(world.sent.len(), 2);
    world.happen(&mut app, TuiEvent::SelectSession(b));
    assert!(!app.is_processing);
    world.happen(&mut app, TuiEvent::ResponseChunk(b, "reply for b".to_string()));
    assert_eq!(app.streaming_response.as_deref(), Some("reply for b"));

    world.happen(&mut app, TuiEvent::SelectSession(a));
    assert!(app.is_processing);
    assert!(app.streaming_response.is_none());
    world.happen(&mut app, TuiEvent::ResponseChunk(a, "reply for a".to_string()));
    assert_eq!(app.streaming_response.as_deref(), Some("reply for a"));
}

#[test]
fn messages_keep_their_identifiers_and_times() {
    let mut app = test_app();
    let mut world = World::new();
    let id = world.create_new_session(&mut app);
    let old = |n: u128, at: i64| StoredMessage { id: n, created_at: at, ..stored("old") };
    world.messages.insert(id, vec![old(11, 1_000), old(12, 2_000)]);
    world.happen(&mut app, TuiEvent::SelectSession(id));
    let stamps =
        |app: &App| app.messages.iter().map(|m| (m.id, m.timestamp)).collect::<Vec<_>>();
    assert_eq!(stamps(&app), vec![(11, 1_000), (12, 2_000)]);

    world.happen(&mut app, TuiEvent::ResponseComplete(id + 1, response("elsewhere")));
    assert_eq!(stamps(&app), vec![(11, 1_000), (12, 2_000)]);

    let waiting = plan(PlanStatus::PendingApproval, vec![task(1, 1, "A", TaskStatus::Pending)]);
    app.handle_event(TuiEvent::PlanInDatabase { to_view: false, plan: Some(waiting) });
    app.handle_event(TuiEvent::MessageSubmitted("hello".to_string()));
    world.happen(&mut app, TuiEvent::ResponseComplete(id, response("hi")));
    assert_eq!(app.messages.len(), 5);
    assert_eq!(stamps(&app)[..2], [(11, 1_000), (12, 2_000)]);
    assert_eq!(app.messages[4].id, 77);
    let now = app.messages[4].timestamp;
    assert!(now > 1_600_000_000_000);
    assert_ne!(app.messages[2].id, app.messages[3].id);

    let before = stamps(&app);
    app.messages[0].thinking_text = Some("hm".to_string());
    app.toggle_thinking();
    assert!(app.messages[0].thinking_expanded);
    assert_eq!(stamps(&app), before);
}

#[test]
fn a_task_keeps_the_time_of_its_completion() {
    let mut done = task(1, 1, "First", TaskStatus::Completed);
    done.completed_at = Some(5_000);
    let mut p = plan(
        PlanStatus::InProgress,
        vec![done, task(2, 2, "Second", TaskStatus::InProgress)],
    );
    assert_eq!(p.copy().tasks[0].completed_at, Some(5_000));
    assert!(!p.take_answer("all done", 9_000));
    assert_eq!(p.tasks[0].completed_at, Some(5_000));
    assert_eq!(p.tasks[1].completed_at, Some(9_000));
    assert_eq!(p.tasks[1].status, TaskStatus::Completed);

    let mut app = test_app();
    let mut world = World::new();
    world.create_new_session(&mut app);
    let effects = app.handle_event(TuiEvent::PlanInFile { to_view: true, plan: Some(p) });
    let kept: Vec<_> =
        app.current_plan.as_ref().unwrap().tasks.iter().map(|t| t.completed_at).collect();
    assert_eq!(kept, vec![Some(5_000), Some(9_000)]);
    match &effects[..] {
        [Effect::MigratePlan { plan }] => {
            assert_eq!(plan.tasks[0].completed_at, Some(5_000));
            assert_eq!(plan.tasks[1].completed_at, Some(9_000));
        }
        other => panic!("{other:?}"),
    }

    app.executing_plan = true;
    app.handle_event(TuiEvent::TasksOrdered(None));
    let kept: Vec<_> =
        app.current_plan.as_ref().unwrap().tasks.iter().map(|t| t.completed_at).collect();
    assert_eq!(kept, vec![Some(5_000), Some(9_000)]);
}

#[test]
fn a_completed_task_has_the_time_of_the_answer() {
    let mut app = test_app();
    let mut world = World::new();
    let id = world.create_new_session(&mut app);
    app.current_plan =
        Some(plan(PlanStatus::InProgress, vec![task(1, 1, "A", TaskStatus::InProgress)]));
    app.executing_plan = true;
    app.handle_event(TuiEvent::ResponseComplete(id, response("All done.")));
    let answer = app.messages.last().unwrap();
    assert_eq!(answer.id, 77);
    assert_eq!(app.current_plan.as_ref().unwrap().tasks[0].completed_at, Some(answer.timestamp));
}

#[test]
fn a_model_file_that_was_switched_to_is_the_configured_one() {
    let mut app = test_app();
    let switched = |path: &str, name: &str| TuiEvent::LlamaCppSwitchFinished {
        path: path.to_string(),
        name: name.to_string(),
        outcome: SwitchOutcome::Switched(ActiveProvider {
            name: "llama-cpp".to_string(),
            model: name.to_string(),
            context_window: Some(4096),
        }),
    };
    app.handle_event(switched("/models/x.gguf", "x.gguf"));
    assert!(app.llama_cpp_config.is_none());
    assert_eq!(app.llama_cpp_active_model_path.as_deref(), Some("/models/x.gguf"));

    app.set_llama_cpp_config(local_config("/models/a.gguf"));
    app.handle_event(switched("/models/b.gguf", "b.gguf"));
    let config = app.llama_cpp_config.as_ref().unwrap();
    assert_eq!(config.model_path, "/models/b.gguf");
    assert_eq!(config.n_gpu_layers, 7);
    assert_eq!(config.n_ctx, 4096);
    assert_eq!(app.llama_cpp_details_path().as_deref(), Some("/models/b.gguf"));

    app.handle_event(TuiEvent::LlamaCppSwitchFinished {
        path: "/models/c.gguf".to_string(),
        name: "c.gguf".to_string(),
        outcome: SwitchOutcome::Failed("no memory".to_string()),
    });
    assert_eq!(app.llama_cpp_config.as_ref().unwrap().model_path, "/models/b.gguf");
}

#[test]
fn a_draft_comes_back_however_far_one_looked() {
    let mut app = test_app();
    for n in 0..5 {
        app.input.push_input_history(&format!("message {n}"));
    }
    app.input.set_input_text("first line\nsecond line");
    for back in 1..8 {
        for _ in 0..back {
            app.input.history_prev();
        }
        app.input.history_next();
        app.input.history_prev();
        for _ in 0..back {
            app.input.history_next();
        }
        assert_eq!(app.input_text(), "first line\nsecond line");
        assert_eq!(app.input.cursor(), (1, 11));
        assert_eq!(app.input.position, None);
    }
}
