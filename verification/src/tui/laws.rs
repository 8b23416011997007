//! What holds of the application whatever happens.

use crate::tui::effects::EffectView;
use crate::tui::events::TuiEvent;
use crate::tui::input;
use crate::tui::keys::KeyPress;
use crate::tui::message;
use crate::tui::message::{ShownView, Stamp};
use crate::tui::model;
use crate::tui::model::{AppMode, AppView, ResponseView, SessionView};
use crate::tui::plan;
use crate::tui::plan::{PlanView, TaskStatus};
use crate::text;
use vstd::prelude::*;

verus! {

/// Whether the application shows that it waits exactly if an answer for the
/// session on the screen is outstanding.
pub open spec fn waits_rightly(v: AppView) -> bool {
    v.is_processing == (v.current_id() is Some && v.processing == v.current_id())
}

/// Whether every message of `a` is in `b` at the same place, the same but for
/// whether its reasoning is shown.
pub open spec fn still_said(a: Seq<ShownView>, b: Seq<ShownView>) -> bool {
    &&& a.len() <= b.len()
    &&& forall|i: int|
        0 <= i < a.len() ==> (#[trigger] b[i]) == (ShownView {
            thinking_expanded: b[i].thinking_expanded,
            ..a[i]
        })
}

/// Whether an event brings another session on the screen or clears it.
pub open spec fn changes_session(e: TuiEvent) -> bool {
    e is SessionCreated || e is SessionLoaded || e is MessagesDeleted
}

/// What a session's agent answers or fails to answer while another session is on
/// the screen changes nothing that is shown. All that is noted is that the answer
/// is not outstanding any more.
pub proof fn answers_for_other_sessions_are_dropped(
    v: AppView,
    session: u128,
    chunk: Seq<char>,
    r: ResponseView,
    error: Seq<char>,
    stamps: Seq<Stamp>,
)
    requires
        v.current_id() != Some(session),
    ensures
        v.on_chunk(session, chunk) == v,
        v.on_complete(session, r, stamps).0 == (AppView {
            processing: v.on_complete(session, r, stamps).0.processing,
            ..v
        }),
        v.on_complete(session, r, stamps).0.processing != Some(session),
        v.on_complete(session, r, stamps).1.len() == 0,
        v.on_error(session, error) == v.on_complete(session, r, stamps),
{
}

/// While a session waits for an answer, nothing more is sent for it; and once
/// something is sent, it waits.
pub proof fn one_request_at_a_time(
    v: AppView,
    content: Seq<char>,
    stamps: Seq<Stamp>,
    again: Seq<char>,
    later: Seq<Stamp>,
)
    requires
        v.session is Some,
    ensures
        v.busy_here() ==> v.sent(content, stamps) == (v, Seq::<EffectView>::empty()),
        v.sent(content, stamps).0.busy_here(),
        v.sent(content, stamps).0.sent(again, later) == (
            v.sent(content, stamps).0,
            Seq::<EffectView>::empty(),
        ),
{
}

/// The guard is for the session on the screen alone: a session for which nothing
/// is outstanding can send, whatever is outstanding for another.
pub proof fn another_session_can_send(v: AppView, content: Seq<char>, stamps: Seq<Stamp>)
    requires
        v.session is Some,
        v.processing != v.current_id(),
    ensures
        v.sent(content, stamps).1 == seq![
            EffectView::Send {
                session: v.session.unwrap().id,
                content,
                read_only: v.mode == AppMode::Plan,
            },
        ],
        v.sent(content, stamps).0.messages.len() == v.messages.len() + 1,
{
}

/// Messages are not cleared while the session waits for an answer.
pub proof fn a_waiting_session_is_not_cleared(v: AppView)
    requires
        v.busy_here(),
    ensures
        v.clearing().1.len() == 0,
        v.clearing().0 == (AppView { error: Some(model::CLEAR_BUSY@), ..v }),
{
}

/// A key counts once, when it is pressed: letting it go or holding it down does
/// nothing.
pub proof fn only_a_press_counts(v: AppView, k: KeyPress, stamps: Seq<Stamp>)
    requires
        !k.pressed,
    ensures
        v.on_event(TuiEvent::Key(k), stamps) == (v, Seq::<EffectView>::empty()),
{
}

/// The key for it changes how much is done without asking, from wherever it is
/// pressed, and nothing else; three times it changes nothing.
pub proof fn the_auto_mode_key_works_everywhere(
    v: AppView,
    k: KeyPress,
    stamps: Seq<Stamp>,
    later: Seq<Stamp>,
    at_last: Seq<Stamp>,
)
    requires
        k.bound.toggle_auto_mode,
        !k.bound.quit,
        !k.bound.new_session,
        !k.bound.list_sessions,
        !k.bound.help,
        !k.bound.clear_session,
        !k.bound.toggle_plan,
    ensures
        v.on_key(k, stamps).0 == (AppView { auto_mode: model::next_auto_mode(v.auto_mode), ..v }),
        v.on_key(k, stamps).1.len() == 0,
        v.on_key(k, stamps).0.on_key(k, later).0.on_key(k, at_last).0 == v,
{
}

/// Going to another session shows that it waits only if it does, and never what
/// came in for another. Coming back to the session that an answer is outstanding
/// for shows that it waits again, with nothing of the answer yet.
pub proof fn another_session_shows_its_own_state(
    v: AppView,
    s: SessionView,
    messages: Seq<ShownView>,
    show_chat: bool,
)
    ensures
        v.session_created(s).0.is_processing == (v.processing == Some(s.id)),
        v.session_loaded(s, messages, show_chat).0.is_processing == (v.processing == Some(s.id)),
        v.session_created(s).0.streaming is None,
        v.session_loaded(s, messages, show_chat).0.streaming is None,
        v.session_created(s).0.processing == v.processing,
        v.session_loaded(s, messages, show_chat).0.processing == v.processing,
        v.session_loaded(s, messages, show_chat).0.messages == messages,
{
}

/// A session that is made or read has a model and a provider, unless it came
/// with a model but no provider.
pub proof fn a_session_knows_its_model(
    v: AppView,
    s: SessionView,
    messages: Seq<ShownView>,
    show_chat: bool,
)
    ensures
        v.session_created(s).0.session.unwrap().model == Some(v.provider_model),
        v.session_created(s).0.session.unwrap().provider == Some(v.provider_name),
        v.session_loaded(s, messages, show_chat).0.session.unwrap().model is Some,
        s.model is Some ==> v.session_loaded(s, messages, show_chat).0.session == Some(s),
{
}

/// An error while a plan is carried out stops that: the task at hand has failed,
/// with the error noted, and the plan is stored.
pub proof fn an_error_stops_the_plan(v: AppView, session: u128, error: Seq<char>)
    requires
        v.current_id() == Some(session),
        v.executing,
    ensures
        !v.on_error(session, error).0.executing,
        v.on_error(session, error).0.error == Some(error),
        v.plan matches Some(p) ==> {
            &&& v.on_error(session, error).0.plan == Some(plan::with_failure(p, error))
            &&& v.on_error(session, error).1.len() == 1
            &&& match plan::first_with(p.tasks, TaskStatus::InProgress, 0) {
                Some(i) => plan::with_failure(p, error).tasks[i].status == TaskStatus::Failed,
                None => true,
            }
        },
{
    if let Some(p) = v.plan {
        plan::a_task_is_never_left_in_progress(p, Seq::empty(), 0, error);
    }
}

/// Tasks that cannot be put in order are not carried out.
pub proof fn a_circle_of_tasks_stops_the_plan(v: AppView, stamps: Seq<Stamp>)
    ensures
        !v.tasks_ordered(None, stamps).0.executing,
        v.tasks_ordered(None, stamps).1.len() == 0,
        v.plan is Some ==> v.tasks_ordered(None, stamps).0.error == Some(model::CIRCULAR@),
        v.tasks_ordered(None, stamps).0.plan == v.plan,
{
}

/// A plan is offered once: it never takes the place of another, and is not
/// announced again.
pub proof fn a_plan_is_offered_once(
    v: AppView,
    p: PlanView,
    stamps: Seq<Stamp>,
    q: PlanView,
    later: Seq<Stamp>,
)
    ensures
        v.plan is Some ==> v.plan_offered(p, stamps) == v,
        v.plan_offered(p, stamps).plan is Some ==> v.plan_offered(p, stamps).plan_offered(q, later)
            == v.plan_offered(p, stamps),
{
}

/// A request for approval that was not answered in time is denied once, and the
/// application goes back to the chat.
pub proof fn a_request_times_out_once(v: AppView, request: u128, then_timed_out: bool)
    requires
        v.approval == Some(request),
    ensures
        v.on_tick(true).1 == seq![
            EffectView::Respond {
                request,
                approved: false,
                reason: Some(model::TIMED_OUT_REASON@),
            },
        ],
        v.on_tick(true).0.approval is None,
        v.on_tick(true).0.mode == AppMode::Chat,
        v.on_tick(true).0.on_tick(then_timed_out).1.len() == 0,
        v.on_tick(false).1.len() == 0,
        v.on_tick(false).0.approval == v.approval,
{
}

/// A line that does not begin with a slash is sent.
pub proof fn a_line_without_a_slash_is_sent(v: AppView, content: Seq<char>, stamps: Seq<Stamp>)
    requires
        text::trimmed(content).len() == 0 || text::trimmed(content)[0] != '/',
    ensures
        v.commanded(content, stamps) == v.sent(content, stamps),
{
}

/// A word behind a slash that names neither a view nor a skill is no command:
/// when no skill of the name was found, the line is sent as any other.
pub proof fn an_unknown_command_is_sent_as_it_is(
    v: AppView,
    content: Seq<char>,
    stamps: Seq<Stamp>,
)
    requires
        text::trimmed(content).len() > 0,
        text::trimmed(content)[0] == '/',
        model::command_word(content) != "/skills"@,
        model::command_word(content) != "/mcp"@,
        model::command_word(content) != "/help"@,
    ensures
        v.commanded(content, stamps) == (
            v,
            seq![
                EffectView::ResolveSkill {
                    name: model::without_slashes(model::command_word(content)),
                    content,
                    arguments: model::command_arguments(content),
                },
            ],
        ),
        v.skill_resolved(content, model::command_arguments(content), None, stamps) == v.sent(
            content,
            stamps,
        ),
{
}

/// Whether a step from `v` to `w` keeps what is waited for in order, and, if
/// `keeps`, loses no message.
#[verifier::opaque]
spec fn is_sound(v: AppView, w: AppView, keeps: bool) -> bool {
    (waits_rightly(v) ==> waits_rightly(w)) && (keeps ==> still_said(v.messages, w.messages))
}

proof fn lemma_untouched(v: AppView, w: AppView)
    requires
        w.messages == v.messages,
        w.current_id() == v.current_id(),
        w.is_processing == v.is_processing,
        w.processing == v.processing,
    ensures
        is_sound(v, w, true),
{
    reveal(is_sound);
}

proof fn lemma_told(v: AppView, w: AppView, content: Seq<char>, stamps: Seq<Stamp>)
    requires
        w.messages == v.told(content, stamps).messages,
        w.current_id() == v.current_id(),
        w.is_processing == v.is_processing,
        w.processing == v.processing,
    ensures
        is_sound(v, w, true),
{
    reveal(is_sound);
}

proof fn lemma_sent(v: AppView, content: Seq<char>, stamps: Seq<Stamp>)
    ensures
        is_sound(v, v.sent(content, stamps).0, true),
{
    reveal(is_sound);
}

proof fn lemma_thinking(messages: Seq<ShownView>)
    ensures
        match model::last_thinking(messages) {
            Some(i) => 0 <= i < messages.len(),
            None => true,
        },
    decreases messages.len(),
{
    if messages.len() > 0 {
        lemma_thinking(messages.drop_last());
    }
}

proof fn lemma_chat_key(v: AppView, k: KeyPress, stamps: Seq<Stamp>)
    ensures
        is_sound(v, v.chat_key(k, stamps).0, true),
{
    reveal(is_sound);
    let content = input::text_of(v.input.lines);
    let submitted = v.with_input(v.input.with_text(input::empty_text()).submitted(content));
    assert(is_sound(v, submitted.commanded(content, stamps).0, true)) by {
        lemma_sent(submitted, content, stamps);
    }
    assert(is_sound(v, v.edit_key(k).0, true)) by {
        lemma_thinking(v.messages);
    }
}

proof fn lemma_plan_key(v: AppView, k: KeyPress)
    ensures
        is_sound(v, v.plan_key(k).0, true),
{
    lemma_untouched(v, v.plan_key(k).0);
}

proof fn lemma_mode_key(v: AppView, k: KeyPress, stamps: Seq<Stamp>)
    ensures
        is_sound(v, v.mode_key(k, stamps).0, true),
{
    match v.mode {
        AppMode::Chat => {
            lemma_chat_key(v, k, stamps);
        },
        AppMode::Plan => {
            lemma_plan_key(v, k);
        },
        _ => {
            lemma_untouched(v, v.mode_key(k, stamps).0);
        },
    }
}

proof fn lemma_key(v: AppView, k: KeyPress, stamps: Seq<Stamp>)
    ensures
        is_sound(v, v.on_key(k, stamps).0, true),
{
    lemma_mode_key(v, k, stamps);
    let w = v.on_key(k, stamps).0;
    if w != v.mode_key(k, stamps).0 {
        lemma_untouched(v, w);
    }
}

proof fn lemma_answered(v: AppView, r: ResponseView, stamps: Seq<Stamp>)
    ensures
        is_sound(v, v.answered(r, stamps).0, true),
{
    reveal(is_sound);
}

proof fn lemma_replied(
    v: AppView,
    session: u128,
    r: ResponseView,
    error: Seq<char>,
    stamps: Seq<Stamp>,
)
    ensures
        is_sound(v, v.on_complete(session, r, stamps).0, true),
        is_sound(v, v.on_error(session, error).0, true),
{
    lemma_answered(v, r, stamps);
    reveal(is_sound);
}

proof fn lemma_tasks_ordered(v: AppView, order: Option<Seq<usize>>, stamps: Seq<Stamp>)
    ensures
        is_sound(v, v.tasks_ordered(order, stamps).0, true),
{
    reveal(is_sound);
}

proof fn lemma_session(
    v: AppView,
    s: SessionView,
    messages: Seq<ShownView>,
    show_chat: bool,
)
    ensures
        is_sound(v, v.session_created(s).0, false),
        is_sound(v, v.session_loaded(s, messages, show_chat).0, false),
        is_sound(v, v.cleared(), false),
{
    reveal(is_sound);
}

proof fn lemma_plan(v: AppView, to_view: bool, found: Option<PlanView>, stamps: Seq<Stamp>)
    ensures
        is_sound(v, v.plan_in_database(to_view, found, stamps).0, true),
        is_sound(v, v.plan_in_file(to_view, found, stamps).0, true),
        is_sound(v, v.plan_exported().0, true),
{
    reveal(is_sound);
}

proof fn lemma_result(v: AppView, e: TuiEvent, stamps: Seq<Stamp>)
    ensures
        is_sound(v, v.on_result(e, stamps).0, !changes_session(e)),
{
    let w = v.on_result(e, stamps).0;
    match e {
        TuiEvent::SessionCreated(s) => {
            lemma_session(v, s@, v.messages, true);
        },
        TuiEvent::SessionLoaded { session, messages, show_chat } => {
            let m = Seq::new(messages@.len(), |i: int| message::stored_shown(messages@[i]));
            lemma_session(v, session@, m, show_chat);
        },
        TuiEvent::MessagesDeleted => {
            lemma_session(v, v.session.unwrap(), v.messages, true);
        },
        TuiEvent::TasksOrdered(Some(o)) => {
            lemma_tasks_ordered(v, Some(o@), stamps);
        },
        TuiEvent::TasksOrdered(None) => {
            lemma_tasks_ordered(v, None, stamps);
        },
        TuiEvent::PlanInDatabase { to_view, plan } => {
            lemma_plan(v, to_view, plan::opt_plan(plan), stamps);
        },
        TuiEvent::PlanInFile { to_view, plan } => {
            lemma_plan(v, to_view, plan::opt_plan(plan), stamps);
        },
        TuiEvent::PlanExported => {
            lemma_plan(v, true, None, stamps);
        },
        TuiEvent::SkillResolved { content, arguments, prompt } => {
            match prompt {
                Some(p) => {
                    lemma_sent(v, p@, stamps);
                    lemma_sent(v, p@ + "\n\nAdditional arguments: "@ + arguments@, stamps);
                },
                None => {
                    lemma_sent(v, content@, stamps);
                },
            }
        },
        _ => {
            lemma_untouched(v, w);
        },
    }
}

proof fn lemma_model_event(v: AppView, e: TuiEvent, stamps: Seq<Stamp>)
    ensures
        is_sound(v, v.on_model_event(e, stamps).0, !changes_session(e)),
{
    let w = v.on_model_event(e, stamps).0;
    match e {
        TuiEvent::OllamaPullFinished { model, error } => {
            lemma_told(v, w, w.messages.last().content, stamps);
        },
        TuiEvent::OllamaDeleteFinished { model, error } => {
            lemma_told(v, w, w.messages.last().content, stamps);
        },
        TuiEvent::LlamaCppDownloadFinished { source, error } => {
            lemma_told(v, w, w.messages.last().content, stamps);
        },
        TuiEvent::LlamaCppDeleteFinished { path, name, error } => {
            lemma_told(v, w, w.messages.last().content, stamps);
        },
        TuiEvent::LlamaCppSwitchFinished { path, name, outcome } => {
            lemma_told(v, w, w.messages.last().content, stamps);
        },
        TuiEvent::OllamaSwitchFinished { model, outcome } => {
            if outcome@ is Switched {
                lemma_told(v, w, w.messages.last().content, stamps);
            } else {
                lemma_untouched(v, w);
            }
        },
        TuiEvent::OllamaModelsListed(_) | TuiEvent::ProviderSwitchModelsListed(_)
        | TuiEvent::OllamaPullProgress { .. } | TuiEvent::LlamaCppModelsListed(_)
        | TuiEvent::LlamaCppHardwareDetected(_) | TuiEvent::LlamaCppDownloadProgress { .. } => {
            lemma_untouched(v, w);
        },
        _ => {
            lemma_result(v, e, stamps);
        },
    }
}

proof fn lemma_event(v: AppView, e: TuiEvent, stamps: Seq<Stamp>)
    ensures
        is_sound(v, v.on_event(e, stamps).0, !changes_session(e)),
{
    let w = v.on_event(e, stamps).0;
    match e {
        TuiEvent::Key(k) => {
            lemma_key(v, k, stamps);
            lemma_untouched(v, v);
        },
        TuiEvent::MessageSubmitted(content) => {
            lemma_sent(v, content@, stamps);
        },
        TuiEvent::ResponseComplete(session, r) => {
            lemma_replied(v, session, r@, Seq::empty(), stamps);
        },
        TuiEvent::Error(session, error) => {
            lemma_replied(v, session, arbitrary(), error@, stamps);
        },
        TuiEvent::Paste(_) | TuiEvent::ResponseChunk(_, _) | TuiEvent::SwitchMode(_)
        | TuiEvent::SelectSession(_) | TuiEvent::NewSession | TuiEvent::Quit
        | TuiEvent::Tick { .. } | TuiEvent::ToolApprovalRequested(_)
        | TuiEvent::ToolApprovalResponse | TuiEvent::Resize(_, _) | TuiEvent::AgentProcessing => {
            lemma_untouched(v, w);
        },
        _ => {
            lemma_model_event(v, e, stamps);
        },
    }
}

/// Whatever happens, the application shows that it waits exactly if an answer
/// for the session on the screen is outstanding.
pub proof fn it_always_waits_rightly(v: AppView, e: TuiEvent, stamps: Seq<Stamp>)
    requires
        waits_rightly(v),
    ensures
        waits_rightly(v.on_event(e, stamps).0),
{
    lemma_event(v, e, stamps);
    reveal(is_sound);
}

/// Whatever happens, no message is lost or changed, unless another session comes
/// on the screen or this one is cleared. New messages are added at the end. All
/// that may change of a message is whether its reasoning is shown.
pub proof fn nothing_said_is_lost(v: AppView, e: TuiEvent, stamps: Seq<Stamp>)
    requires
        !changes_session(e),
    ensures
        still_said(v.messages, v.on_event(e, stamps).0.messages),
{
    lemma_event(v, e, stamps);
    reveal(is_sound);
}

} // verus!
